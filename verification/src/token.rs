use vstd::prelude::*;
use vstd::string::StringExecFns;

use crate::error::Error;

verus! {

/// The feature whose presence marks a token for highlighting.
pub const MARK_FEATURE: &'static str = "mark";

/// One of the two annotation layers that a sentence carries.
#[derive(Clone, Copy, Debug, PartialEq, Eq, Structural)]
pub enum Layer {
    /// The primary annotation: head and head relation.
    Surface,
    /// The alternate, non-crossing annotation: projective head and relation.
    Projective,
}

/// One annotated token of a sentence.
///
/// A head is the 1-based position of the governing token in the sentence; 0
/// says that the token is a root. `None` says that the column is not filled in.
#[derive(Debug, PartialEq, Eq)]
pub struct Token {
    pub form: String,
    pub head: Option<usize>,
    pub head_rel: Option<String>,
    pub phead: Option<usize>,
    pub phead_rel: Option<String>,
    /// The feature column as it is written: fields separated by `|`, each a
    /// key, or a key and a value separated by `:`.
    pub features: Option<String>,
}

/// `s[i..j]` is one of the fields of the feature column `s`: a longest run
/// without `|`, bounded on each side by a `|` or by an end of the column.
pub open spec fn is_field(s: Seq<char>, i: int, j: int) -> bool {
    &&& 0 <= i <= j <= s.len()
    &&& (i == 0 || s[i - 1] == '|')
    &&& (j == s.len() || s[j] == '|')
    &&& forall|k: int| i <= k < j ==> s[k] != '|'
}

/// The key of a field: what stands before its first `:`, or all of it where it
/// has none.
pub open spec fn field_key(field: Seq<char>) -> Seq<char>
    decreases field.len(),
{
    if field.len() == 0 || field[0] == ':' {
        Seq::empty()
    } else {
        seq![field[0]] + field_key(field.skip(1))
    }
}

/// `key` is the key of one of the fields of the feature column `features`.
pub open spec fn is_feature_key(features: Seq<char>, key: Seq<char>) -> bool {
    exists|i: int, j: int| #[trigger]
        is_field(features, i, j) && field_key(features.subrange(i, j)) == key
}

/// The keys of a feature column, as `conllx::token::Features::from(&str)` reads
/// them: it cuts the column at every `|`, takes from each piece what stands
/// before its first `:` (the whole piece where there is none) as a key, and
/// collects the keys in a map. The contract says that the keys handed back are
/// exactly those; it says nothing of their order.
#[verifier::external_body]
fn feature_keys(features: &str) -> (keys: Vec<String>)
    ensures
        forall|key: Seq<char>|
            is_feature_key(features@, key) <==> exists|i: int|
                0 <= i < keys.len() && #[trigger] keys[i]@ == key,
{
    conllx::token::Features::from(features).into_inner().into_keys().collect()
}

impl Token {
    /// The head of the token in `layer`.
    pub open spec fn head_in(&self, layer: Layer) -> Option<usize> {
        match layer {
            Layer::Surface => self.head,
            Layer::Projective => self.phead,
        }
    }

    /// The relation of the token to its head in `layer`.
    pub open spec fn relation_in(&self, layer: Layer) -> Option<Seq<char>> {
        match layer {
            Layer::Surface => match self.head_rel {
                Some(r) => Some(r@),
                None => None,
            },
            Layer::Projective => match self.phead_rel {
                Some(r) => Some(r@),
                None => None,
            },
        }
    }

    /// The token has a governor in `layer`: its head is there and is not 0.
    pub open spec fn is_dependent(&self, layer: Layer) -> bool {
        self.head_in(layer) matches Some(h) && h != 0
    }

    /// What keeps the token out of a graph of `layer`, if anything does.
    pub open spec fn fault(&self, layer: Layer) -> Option<Error> {
        match self.head_in(layer) {
            None => Some(Error::MissingHead),
            Some(h) => if h != 0 && self.relation_in(layer) is None {
                Some(Error::MissingRelation)
            } else {
                None
            },
        }
    }

    /// The token is marked for highlighting: its feature column is there and
    /// has a field with the key `mark`.
    pub open spec fn is_marked(&self) -> bool {
        self.features matches Some(f) && is_feature_key(f@, MARK_FEATURE@)
    }

    /// A token with the given form and every other column empty.
    pub fn new(form: &str) -> (t: Token)
        ensures
            t.form@ == form@,
            t.head is None,
            t.head_rel is None,
            t.phead is None,
            t.phead_rel is None,
            t.features is None,
    {
        Token {
            form: String::from_str(form),
            head: None,
            head_rel: None,
            phead: None,
            phead_rel: None,
            features: None,
        }
    }

    /// The head of the token in `layer`.
    pub fn head(&self, layer: Layer) -> (h: Option<usize>)
        ensures
            h == self.head_in(layer),
    {
        match layer {
            Layer::Surface => self.head,
            Layer::Projective => self.phead,
        }
    }

    /// The relation of the token to its head in `layer`.
    pub fn relation(&self, layer: Layer) -> (r: Option<&String>)
        ensures
            match r {
                Some(s) => self.relation_in(layer) == Some(s@),
                None => self.relation_in(layer) is None,
            },
    {
        match layer {
            Layer::Surface => self.head_rel.as_ref(),
            Layer::Projective => self.phead_rel.as_ref(),
        }
    }

    /// Whether the token is marked for highlighting.
    pub fn marked(&self) -> (m: bool)
        ensures
            m == self.is_marked(),
    {
        match &self.features {
            None => false,
            Some(features) => {
                let keys = feature_keys(features.as_str());
                holds_text(&keys, MARK_FEATURE)
            },
        }
    }
}

/// Whether one of `texts` reads `wanted`.
fn holds_text(texts: &Vec<String>, wanted: &str) -> (found: bool)
    ensures
        found <==> exists|i: int| 0 <= i < texts.len() && #[trigger] texts[i]@ == wanted@,
{
    let wanted_text = String::from_str(wanted);
    let mut i: usize = 0;
    while i < texts.len()
        invariant
            i <= texts.len(),
            wanted_text@ == wanted@,
            forall|j: int| 0 <= j < i ==> #[trigger] texts[j]@ != wanted@,
        decreases texts.len() - i,
    {
        if texts[i] == wanted_text {
            assert(texts[i as int]@ == wanted@);
            return true;
        }
        i += 1;
    }
    false
}

fn clone_text(s: &Option<String>) -> (r: Option<String>)
    ensures
        r == *s,
{
    match s {
        Some(text) => Some(text.clone()),
        None => None,
    }
}

impl Clone for Token {
    fn clone(&self) -> (t: Token)
        ensures
            t == *self,
    {
        Token {
            form: self.form.clone(),
            head: self.head,
            head_rel: clone_text(&self.head_rel),
            phead: self.phead,
            phead_rel: clone_text(&self.phead_rel),
            features: clone_text(&self.features),
        }
    }
}

} // verus!
