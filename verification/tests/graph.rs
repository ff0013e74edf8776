use conllx_view::{DependencyGraph, Dot, Error, Layer, Tikz, Token, Tokens};

fn token(form: &str, head: usize, rel: Option<&str>) -> Token {
    let mut t = Token::new(form);
    t.head = Some(head);
    t.head_rel = rel.map(|r| r.to_string());
    t
}

fn cats() -> Vec<Token> {
    vec![
        token("Cats", 2, Some("nsubj")),
        token("chase", 0, None),
        token("mice", 2, Some("dobj")),
    ]
}

fn edges_of(g: &DependencyGraph) -> Vec<(usize, usize, String)> {
    g.edges().iter().map(|e| (e.source(), e.target(), e.relation().to_string())).collect()
}

#[test]
fn new_token_has_only_a_form() {
    let t = Token::new("mice");
    assert_eq!(t.form, "mice");
    assert_eq!(t.head, None);
    assert_eq!(t.head_rel, None);
    assert_eq!(t.phead, None);
    assert_eq!(t.phead_rel, None);
    assert_eq!(t.features, None);
    assert_eq!(t.head(Layer::Surface), None);
    assert_eq!(t.relation(Layer::Projective), None);
    assert!(!t.marked());
}

#[test]
fn token_reads_each_layer() {
    let mut t = token("mice", 2, Some("dobj"));
    t.phead = Some(1);
    t.phead_rel = Some("obj".to_string());
    assert_eq!(t.head(Layer::Surface), Some(2));
    assert_eq!(t.head(Layer::Projective), Some(1));
    assert_eq!(t.relation(Layer::Surface).map(|r| r.as_str()), Some("dobj"));
    assert_eq!(t.relation(Layer::Projective).map(|r| r.as_str()), Some("obj"));
    assert_eq!(t.clone(), t);
}

#[test]
fn cats_chase_mice_edges() {
    let g = DependencyGraph::build(&cats(), Layer::Surface).unwrap();
    assert_eq!(g.node_count(), 3);
    assert_eq!(g.edge_count(), 2);
    assert_eq!(g.layer(), Layer::Surface);
    assert_eq!(
        edges_of(&g),
        vec![(1, 0, "nsubj".to_string()), (1, 2, "dobj".to_string())]
    );
}

#[test]
fn cats_chase_mice_dot() {
    let g = DependencyGraph::build(&cats(), Layer::Surface).unwrap();
    let dot = g.dot().unwrap();
    assert!(dot.contains("n1 -> n0[label=\"nsubj\"];"));
    assert!(dot.contains("n1 -> n2[label=\"dobj\"];"));
    assert_eq!(
        dot,
        "digraph deptree {\n\
         graph [charset = \"UTF-8\"]\n\
         node [shape=plaintext, height=0, width=0, fontsize=12, fontname=\"Helvetica\"]\n\
         edge [color=\"#4b0082\", fontsize=\"8\", fontname=\"Courier New\"]\n\
         n0[label=\"Cats\"];\n\
         n1[label=\"chase\"];\n\
         n2[label=\"mice\"];\n\
         n1 -> n0[label=\"nsubj\"];\n\
         n1 -> n2[label=\"dobj\"];\n\
         }"
    );
}

#[test]
fn cats_chase_mice_tikz() {
    let g = DependencyGraph::build(&cats(), Layer::Surface).unwrap();
    let tikz = g.tikz().unwrap();
    assert_eq!(
        tikz,
        "\\documentclass{standalone}\n\n\
         \\usepackage{tikz-dependency}\n\n\
         \\begin{document}\n\n\
         \\begin{dependency}\n\
         \\begin{deptext}Cats & chase & mice\\\\\n\
         \\end{deptext}\n\
         \\depedge{2}{1}{nsubj}\n\
         \\depedge{2}{3}{dobj}\n\
         \\end{dependency}\n\n\
         \\end{document}"
    );
}

#[test]
fn output_is_stable() {
    let g = DependencyGraph::build(&cats(), Layer::Surface).unwrap();
    let h = DependencyGraph::build(&cats(), Layer::Surface).unwrap();
    assert_eq!(g.dot().unwrap(), g.dot().unwrap());
    assert_eq!(g.dot().unwrap(), h.dot().unwrap());
    assert_eq!(g.tikz().unwrap(), h.tikz().unwrap());
    assert_eq!(g.clone(), g);
    assert_eq!(g.clone().dot().unwrap(), g.dot().unwrap());
}

#[test]
fn node_and_edge_counts() {
    for n in 0..12usize {
        // Token i hangs under token i - 1, and every third token is a root.
        let tokens: Vec<Token> = (0..n)
            .map(|i| if i % 3 == 0 { token("w", 0, None) } else { token("w", i, Some("dep")) })
            .collect();
        let dependents = tokens.iter().filter(|t| t.head != Some(0)).count();
        let g = DependencyGraph::build(&tokens, Layer::Surface).unwrap();
        assert_eq!(g.node_count(), n);
        assert_eq!(g.nodes().len(), n);
        assert_eq!(g.edge_count(), dependents);
        assert_eq!(g.edges().len(), dependents);
    }
}

#[test]
fn one_edge_into_each_dependent() {
    let tokens = vec![
        token("a", 3, Some("x")),
        token("b", 1, Some("y")),
        token("c", 0, None),
        token("d", 3, Some("z")),
        token("e", 0, None),
    ];
    let g = DependencyGraph::build(&tokens, Layer::Surface).unwrap();
    for (i, t) in tokens.iter().enumerate() {
        let incoming: Vec<_> = g.edges().iter().filter(|e| e.target() == i).collect();
        match t.head {
            Some(0) => assert!(incoming.is_empty()),
            Some(h) => {
                assert_eq!(incoming.len(), 1);
                assert_eq!(incoming[0].source(), h - 1);
                assert_eq!(Some(incoming[0].relation()), t.head_rel.as_deref());
            }
            None => unreachable!(),
        }
    }
    assert_eq!(
        edges_of(&g),
        vec![(2, 0, "x".to_string()), (0, 1, "y".to_string()), (2, 3, "z".to_string())]
    );
}

#[test]
fn nodes_follow_token_order() {
    let tokens = vec![
        token("last", 0, None),
        token("first", 1, Some("a")),
        token("middle", 2, Some("b")),
    ];
    let g = DependencyGraph::build(&tokens, Layer::Surface).unwrap();
    let nodes = g.nodes();
    assert_eq!(nodes.len(), 3);
    for (i, node) in nodes.iter().enumerate() {
        assert_eq!(node.offset(), i);
        assert_eq!(node.form(), tokens[i].form);
        assert_eq!(node.token(), &tokens[i]);
    }
    assert_eq!(g.tokens(), vec!["last", "first", "middle"]);
}

#[test]
fn a_token_may_govern_itself() {
    let tokens = vec![token("loop", 1, Some("self"))];
    let g = DependencyGraph::build(&tokens, Layer::Surface).unwrap();
    assert_eq!(edges_of(&g), vec![(0, 0, "self".to_string())]);
}

#[test]
fn empty_sentence() {
    let g = DependencyGraph::build(&[], Layer::Surface).unwrap();
    assert_eq!(g.node_count(), 0);
    assert_eq!(g.edge_count(), 0);
    assert_eq!(g.tokens(), Vec::<&str>::new());
    assert_eq!(g.sentence_text(), "");
    assert_eq!(
        g.dot().unwrap(),
        "digraph deptree {\n\
         graph [charset = \"UTF-8\"]\n\
         node [shape=plaintext, height=0, width=0, fontsize=12, fontname=\"Helvetica\"]\n\
         edge [color=\"#4b0082\", fontsize=\"8\", fontname=\"Courier New\"]\n\
         }"
    );
    assert_eq!(
        g.tikz().unwrap(),
        "\\documentclass{standalone}\n\n\
         \\usepackage{tikz-dependency}\n\n\
         \\begin{document}\n\n\
         \\begin{dependency}\n\
         \\begin{deptext}\\\\\n\
         \\end{deptext}\n\
         \\end{dependency}\n\n\
         \\end{document}"
    );
}

#[test]
fn projective_layer_is_separate() {
    let mut tokens = cats();
    tokens[0].phead = Some(0);
    tokens[1].phead = Some(1);
    tokens[1].phead_rel = Some("flat".to_string());
    tokens[2].phead = Some(1);
    tokens[2].phead_rel = Some("obj".to_string());
    let g = DependencyGraph::build(&tokens, Layer::Projective).unwrap();
    assert_eq!(g.layer(), Layer::Projective);
    assert_eq!(g.node_count(), 3);
    assert_eq!(edges_of(&g), vec![(0, 1, "flat".to_string()), (0, 2, "obj".to_string())]);
    let surface = DependencyGraph::build(&tokens, Layer::Surface).unwrap();
    assert_eq!(
        edges_of(&surface),
        vec![(1, 0, "nsubj".to_string()), (1, 2, "dobj".to_string())]
    );
}

#[test]
fn missing_head_is_reported() {
    let mut tokens = cats();
    tokens[1].head = None;
    assert_eq!(DependencyGraph::build(&tokens, Layer::Surface), Err(Error::MissingHead));
    // The surface layer is complete, the projective one is not filled in at all.
    assert_eq!(DependencyGraph::build(&cats(), Layer::Projective), Err(Error::MissingHead));
}

#[test]
fn missing_relation_is_reported() {
    let mut tokens = cats();
    tokens[2].head_rel = None;
    assert_eq!(DependencyGraph::build(&tokens, Layer::Surface), Err(Error::MissingRelation));
}

#[test]
fn a_root_needs_no_relation() {
    let tokens = vec![token("alone", 0, None)];
    let g = DependencyGraph::build(&tokens, Layer::Surface).unwrap();
    assert_eq!(g.node_count(), 1);
    assert_eq!(g.edge_count(), 0);
}

#[test]
fn the_first_fault_decides() {
    let mut tokens = cats();
    tokens[0].head_rel = None;
    tokens[2].head = None;
    assert_eq!(DependencyGraph::build(&tokens, Layer::Surface), Err(Error::MissingRelation));
    let mut tokens = cats();
    tokens[0].head = None;
    tokens[2].head_rel = None;
    assert_eq!(DependencyGraph::build(&tokens, Layer::Surface), Err(Error::MissingHead));
}

#[test]
fn heads_are_checked_against_the_sentence() {
    assert!(DependencyGraph::heads_in_range(&cats(), Layer::Surface));
    assert!(DependencyGraph::heads_in_range(&cats(), Layer::Projective));
    assert!(DependencyGraph::heads_in_range(&[], Layer::Surface));
    let mut tokens = cats();
    tokens[0].head = Some(3);
    assert!(DependencyGraph::heads_in_range(&tokens, Layer::Surface));
    tokens[0].head = Some(4);
    assert!(!DependencyGraph::heads_in_range(&tokens, Layer::Surface));
    assert!(DependencyGraph::heads_in_range(&tokens, Layer::Projective));
    tokens[2].phead = Some(7);
    assert!(!DependencyGraph::heads_in_range(&tokens, Layer::Projective));
}

#[test]
fn marked_token_is_styled() {
    let mut tokens = cats();
    tokens[0].features = Some("marker|remark:mark".to_string());
    tokens[2].features = Some("case:acc|mark".to_string());
    let g = DependencyGraph::build(&tokens, Layer::Surface).unwrap();
    assert!(!g.nodes()[0].marked());
    assert!(!g.nodes()[1].marked());
    assert!(g.nodes()[2].marked());
    let dot = g.dot().unwrap();
    assert!(dot.contains("n0[label=\"Cats\"];\n"));
    assert!(dot.contains("n2[label=\"mice\", fontcolor=\"firebrick3\"];\n"));
    let tikz = g.tikz().unwrap();
    assert!(tikz.contains("\\begin{deptext}Cats & chase & \\underline{mice}\\\\\n"));
}

#[test]
fn mark_is_found_among_the_feature_keys() {
    let marked = |features: &str| {
        let mut t = Token::new("x");
        t.features = Some(features.to_string());
        t.marked()
    };
    assert!(marked("mark"));
    assert!(marked("mark:yes"));
    assert!(marked("mark:"));
    assert!(marked("mark:a:b"));
    assert!(marked("a:b|mark"));
    assert!(marked("mark|a:b"));
    assert!(marked("a|mark:1|b"));
    assert!(!marked(""));
    assert!(!marked("marker"));
    assert!(!marked("remark"));
    assert!(!marked("a:mark"));
    assert!(!marked("Mark"));
    assert!(!marked(" mark"));
    assert!(!marked("a|b:c"));
    assert!(!marked(":mark"));
}

#[test]
fn quotes_are_escaped_in_both_outputs() {
    let tokens = vec![token("A\"B", 0, None), token("say", 1, Some("r\"el"))];
    let g = DependencyGraph::build(&tokens, Layer::Surface).unwrap();
    let dot = g.dot().unwrap();
    assert!(dot.contains("A\\\"B"));
    assert!(dot.contains("n0[label=\"A\\\"B\"];\n"));
    assert!(dot.contains("n0 -> n1[label=\"r\\\"el\"];\n"));
    let tikz = g.tikz().unwrap();
    assert!(tikz.contains("A\\\"B"));
    assert!(tikz.contains("\\begin{deptext}A\\\"B & say\\\\\n"));
    assert!(tikz.contains("\\depedge{1}{2}{r\\\"el}\n"));
}

#[test]
fn only_quotes_are_escaped() {
    let tokens = vec![token("a\\b\n{c}&\u{e9}", 0, None)];
    let g = DependencyGraph::build(&tokens, Layer::Surface).unwrap();
    assert!(g.dot().unwrap().contains("n0[label=\"a\\b\n{c}&\u{e9}\"];\n"));
    assert!(g.tikz().unwrap().contains("\\begin{deptext}a\\b\n{c}&\u{e9}\\\\\n"));
}

#[test]
fn tikz_has_a_word_for_each_token_and_a_command_for_each_edge() {
    let tokens = vec![
        token("a", 2, Some("x")),
        token("b", 0, None),
        token("c", 2, Some("y")),
        token("d", 3, Some("z")),
        token("e", 0, None),
    ];
    let g = DependencyGraph::build(&tokens, Layer::Surface).unwrap();
    let tikz = g.tikz().unwrap();
    let row_start = tikz.find("\\begin{deptext}").unwrap() + "\\begin{deptext}".len();
    let row_end = tikz.find("\\\\\n\\end{deptext}\n").unwrap();
    let words: Vec<&str> = tikz[row_start..row_end].split(" & ").collect();
    assert_eq!(words, vec!["a", "b", "c", "d", "e"]);
    let rest = &tikz[row_end + "\\\\\n\\end{deptext}\n".len()..];
    let commands: Vec<&str> = rest.lines().filter(|l| l.starts_with("\\depedge")).collect();
    assert_eq!(
        commands,
        vec!["\\depedge{2}{1}{x}", "\\depedge{2}{3}{y}", "\\depedge{3}{4}{z}"]
    );
    assert!(rest.ends_with("\\depedge{3}{4}{z}\n\\end{dependency}\n\n\\end{document}"));
}

#[test]
fn node_identifiers_are_decimal() {
    let mut tokens: Vec<Token> = vec![token("w0", 0, None)];
    for i in 1..=120usize {
        tokens.push(token("w", i, Some("d")));
    }
    let g = DependencyGraph::build(&tokens, Layer::Surface).unwrap();
    let dot = g.dot().unwrap();
    assert!(dot.contains("n9[label=\"w\"];\nn10[label=\"w\"];\n"));
    assert!(dot.contains("n99 -> n100[label=\"d\"];\nn100 -> n101[label=\"d\"];\n"));
    assert!(dot.contains("n119 -> n120[label=\"d\"];\n}"));
    let tikz = g.tikz().unwrap();
    assert!(tikz.contains("\\depedge{100}{101}{d}\n"));
    assert!(tikz.contains("\\depedge{9}{10}{d}\n"));
}

#[test]
fn sentence_as_text() {
    let g = DependencyGraph::build(&cats(), Layer::Surface).unwrap();
    assert_eq!(g.tokens(), vec!["Cats", "chase", "mice"]);
    assert_eq!(g.sentence_text(), "Cats chase mice");
    let one = DependencyGraph::build(&[token("Hi", 0, None)], Layer::Surface).unwrap();
    assert_eq!(one.sentence_text(), "Hi");
}
