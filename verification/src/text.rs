use itertools::Itertools;
use vstd::prelude::*;

verus! {

/// `String::push`, which vstd leaves without a specification: the character is
/// appended at the end and nothing else changes.
pub assume_specification[ String::push ](s: &mut String, c: char)
    ensures
        final(s)@ == old(s)@.push(c),
;

/// What one character becomes when a label is escaped: a double quote gets a
/// backslash in front of it, every other character stays as it is.
pub open spec fn escaped_char(c: char) -> Seq<char> {
    if c == '"' {
        seq!['\\', '"']
    } else {
        seq![c]
    }
}

/// The escaped form of a whole label: each character replaced by its escaped
/// form, in order.
pub open spec fn escaped(s: Seq<char>) -> Seq<char> {
    s.flat_map(|c: char| escaped_char(c))
}

/// Mapping one more item to its text appends that text.
pub proof fn lemma_flat_map_push<A>(s: Seq<A>, f: spec_fn(A) -> Seq<char>, x: A)
    ensures
        s.push(x).flat_map(f) == s.flat_map(f) + f(x),
{
    assert(s.push(x).map_values(f) =~= s.map_values(f).push(f(x)));
    s.map_values(f).lemma_flatten_push(f(x));
}

/// The text of the first `i + 1` items is the text of the first `i` followed
/// by the text of item `i`.
pub proof fn lemma_flat_map_take<A>(s: Seq<A>, f: spec_fn(A) -> Seq<char>, i: int)
    requires
        0 <= i < s.len(),
    ensures
        s.take(i + 1).flat_map(f) == s.take(i).flat_map(f) + f(s[i]),
{
    assert(s.take(i + 1) =~= s.take(i).push(s[i]));
    lemma_flat_map_push(s.take(i), f, s[i]);
}

/// Escaping works character by character, so escaping one more character
/// appends that character's escaped form.
pub proof fn lemma_escaped_push(s: Seq<char>, c: char)
    ensures
        escaped(s.push(c)) == escaped(s) + escaped_char(c),
{
    lemma_flat_map_push(s, |c: char| escaped_char(c), c);
}

/// Escapes a label for use between double quotes.
pub fn escape_str(s: &str) -> (r: String)
    ensures
        r@ == escaped(s@),
{
    let mut out = String::new();
    assert(s@.take(0) =~= Seq::<char>::empty());
    assert(escaped(Seq::<char>::empty()) =~= Seq::<char>::empty());
    for c in it: s.chars()
        invariant
            it.seq() == s@,
            out@ == escaped(s@.take(it.index())),
    {
        proof {
            assert(s@.take(it.index() + 1) =~= s@.take(it.index()).push(c));
            lemma_escaped_push(s@.take(it.index()), c);
        }
        if c == '"' {
            out.push('\\');
            out.push('"');
        } else {
            out.push(c);
        }
    }
    assert(s@.take(s@.len() as int) =~= s@);
    out
}

/// The texts of a run of strings.
pub open spec fn texts(strings: Seq<String>) -> Seq<Seq<char>> {
    strings.map_values(|s: String| s@)
}

/// The parts one after the other, with `sep` between each two neighbours and
/// nowhere else.
pub open spec fn joined(parts: Seq<Seq<char>>, sep: Seq<char>) -> Seq<char>
    decreases parts.len(),
{
    if parts.len() == 0 {
        Seq::empty()
    } else if parts.len() == 1 {
        parts[0]
    } else {
        joined(parts.drop_last(), sep) + sep + parts.last()
    }
}

/// `itertools::Itertools::join` on the strings of `parts`: it writes the first
/// string, then for each further one the separator and the string, and hands
/// back the empty string where there is none.
#[verifier::external_body]
pub(crate) fn join_texts(parts: &Vec<String>, sep: &str) -> (r: String)
    ensures
        r@ == joined(texts(parts@), sep@),
{
    parts.iter().join(sep)
}

/// The character that shows a single decimal digit.
pub open spec fn digit_char(d: nat) -> char {
    if d == 0 {
        '0'
    } else if d == 1 {
        '1'
    } else if d == 2 {
        '2'
    } else if d == 3 {
        '3'
    } else if d == 4 {
        '4'
    } else if d == 5 {
        '5'
    } else if d == 6 {
        '6'
    } else if d == 7 {
        '7'
    } else if d == 8 {
        '8'
    } else {
        '9'
    }
}

/// The decimal numeral of `n`: most significant digit first, no sign, no
/// leading zero (zero itself is the single digit `0`).
pub open spec fn decimal(n: nat) -> Seq<char>
    decreases n,
{
    if n < 10 {
        seq![digit_char(n)]
    } else {
        decimal(n / 10).push(digit_char(n % 10))
    }
}

fn digit(d: usize) -> (c: char)
    requires
        d < 10,
    ensures
        c == digit_char(d as nat),
{
    if d == 0 {
        '0'
    } else if d == 1 {
        '1'
    } else if d == 2 {
        '2'
    } else if d == 3 {
        '3'
    } else if d == 4 {
        '4'
    } else if d == 5 {
        '5'
    } else if d == 6 {
        '6'
    } else if d == 7 {
        '7'
    } else if d == 8 {
        '8'
    } else {
        '9'
    }
}

/// Appends the decimal numeral of `n` to `out`.
pub fn push_decimal(out: &mut String, n: usize)
    ensures
        final(out)@ == old(out)@ + decimal(n as nat),
    decreases n,
{
    if n >= 10 {
        push_decimal(out, n / 10);
    }
    out.push(digit(n % 10));
}

/// `run` stands in `text` at position `at`, unbroken.
pub open spec fn occurs_at(run: Seq<char>, text: Seq<char>, at: int) -> bool {
    0 <= at && at + run.len() <= text.len() && text.subrange(at, at + run.len()) == run
}

/// `run` stands somewhere in `text`, unbroken.
pub open spec fn occurs_in(run: Seq<char>, text: Seq<char>) -> bool {
    exists|at: int| occurs_at(run, text, at)
}

/// What stands in a text still stands in it when more text is put before it
/// and behind it.
pub proof fn lemma_occurs_within(run: Seq<char>, before: Seq<char>, text: Seq<char>, after: Seq<char>)
    requires
        occurs_in(run, text),
    ensures
        occurs_in(run, before + text + after),
{
    let at = choose|at: int| occurs_at(run, text, at);
    let whole = before + text + after;
    assert(whole.subrange(before.len() + at, before.len() + at + run.len()) =~= text.subrange(
        at,
        at + run.len(),
    ));
    assert(occurs_at(run, whole, before.len() + at));
}

/// A text stands in itself.
pub proof fn lemma_occurs_in_itself(text: Seq<char>)
    ensures
        occurs_in(text, text),
{
    assert(text.subrange(0, text.len() as int) =~= text);
    assert(occurs_at(text, text, 0));
}

/// Standing in a text that stands in another is standing in that other.
pub proof fn lemma_occurs_chain(run: Seq<char>, middle: Seq<char>, text: Seq<char>)
    requires
        occurs_in(run, middle),
        occurs_in(middle, text),
    ensures
        occurs_in(run, text),
{
    let inner = choose|at: int| occurs_at(run, middle, at);
    let outer = choose|at: int| occurs_at(middle, text, at);
    assert(text.subrange(outer + inner, outer + inner + run.len()) =~= text.subrange(
        outer,
        outer + middle.len(),
    ).subrange(inner, inner + run.len()));
    assert(occurs_at(run, text, outer + inner));
}

/// The text of each item stands in the text of the whole run.
pub proof fn lemma_occurs_in_flat_map<A>(s: Seq<A>, f: spec_fn(A) -> Seq<char>, i: int)
    requires
        0 <= i < s.len(),
    ensures
        occurs_in(f(s[i]), s.flat_map(f)),
    decreases s.len(),
{
    let front = s.drop_last();
    assert(s =~= front.push(s.last()));
    lemma_flat_map_push(front, f, s.last());
    if i == s.len() - 1 {
        lemma_occurs_in_itself(f(s[i]));
        lemma_occurs_within(f(s[i]), front.flat_map(f), f(s[i]), Seq::empty());
        assert(front.flat_map(f) + f(s[i]) + Seq::<char>::empty() =~= s.flat_map(f));
    } else {
        lemma_occurs_in_flat_map(front, f, i);
        lemma_occurs_within(f(s[i]), Seq::empty(), front.flat_map(f), f(s.last()));
        assert(Seq::<char>::empty() + front.flat_map(f) + f(s.last()) =~= s.flat_map(f));
    }
}

/// Each part stands in the joined text.
pub proof fn lemma_occurs_in_joined(parts: Seq<Seq<char>>, sep: Seq<char>, i: int)
    requires
        0 <= i < parts.len(),
    ensures
        occurs_in(parts[i], joined(parts, sep)),
    decreases parts.len(),
{
    if parts.len() == 1 {
        lemma_occurs_in_itself(parts[0]);
    } else {
        let front = parts.drop_last();
        if i == parts.len() - 1 {
            lemma_occurs_in_itself(parts[i]);
            lemma_occurs_within(parts[i], joined(front, sep) + sep, parts[i], Seq::empty());
            assert(joined(front, sep) + sep + parts[i] + Seq::<char>::empty() =~= joined(
                parts,
                sep,
            ));
        } else {
            lemma_occurs_in_joined(front, sep, i);
            lemma_occurs_within(parts[i], Seq::empty(), joined(front, sep), sep + parts.last());
            assert(Seq::<char>::empty() + joined(front, sep) + (sep + parts.last()) =~= joined(
                parts,
                sep,
            ));
        }
    }
}

/// Escaping a text in two pieces gives the two escaped pieces.
pub proof fn lemma_escaped_concat(a: Seq<char>, b: Seq<char>)
    ensures
        escaped(a + b) == escaped(a) + escaped(b),
{
    let f = |c: char| escaped_char(c);
    assert((a + b).map_values(f) =~= a.map_values(f) + b.map_values(f));
    vstd::seq_lib::lemma_flatten_concat(a.map_values(f), b.map_values(f));
}

/// A double quote between two texts comes out as a backslash and the quote
/// between the two escaped texts.
pub proof fn lemma_escaped_quote(a: Seq<char>, b: Seq<char>)
    ensures
        escaped(a + seq!['"'] + b) == escaped(a) + seq!['\\', '"'] + escaped(b),
{
    lemma_escaped_concat(a + seq!['"'], b);
    lemma_escaped_concat(a, seq!['"']);
    let f = |c: char| escaped_char(c);
    assert(seq!['"'].map_values(f) =~= seq![escaped_char('"')]);
    seq![escaped_char('"')].lemma_flatten_singleton();
}

/// A text without a double quote is its own escaped form.
pub proof fn lemma_escaped_plain(s: Seq<char>)
    requires
        forall|i: int| 0 <= i < s.len() ==> s[i] != '"',
    ensures
        escaped(s) == s,
    decreases s.len(),
{
    if s.len() == 0 {
        assert(s.map_values(|c: char| escaped_char(c)) =~= Seq::<Seq<char>>::empty());
        assert(escaped(s) =~= s);
    } else {
        lemma_escaped_plain(s.drop_last());
        assert(s =~= s.drop_last().push(s.last()));
        lemma_escaped_push(s.drop_last(), s.last());
        assert(escaped(s) =~= s);
    }
}

} // verus!
