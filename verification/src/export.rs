use vstd::prelude::*;
use vstd::string::StringExecFns;

use crate::dot::{dot_text, Dot};
use crate::error::Error;
use crate::model::{StatefulTreebankModel, TreebankModel};
use crate::text::{decimal, push_decimal};
use crate::tikz::{tikz_text, Tikz};

verus! {

/// The extension of a file that holds a graph description.
pub const DOT_EXTENSION: &'static str = ".dot";

/// The extension of a file that holds a diagram.
pub const TIKZ_EXTENSION: &'static str = ".tikz";

/// A file to be written: its name and what goes into it.
#[derive(Debug, PartialEq, Eq)]
pub struct Export {
    pub filename: String,
    pub content: String,
}

/// The name of the file for the graph at index `idx`: `s`, the position of the
/// graph counted from 1, and the extension.
pub open spec fn export_name(idx: nat, extension: Seq<char>) -> Seq<char> {
    "s"@ + decimal(idx + 1) + extension
}

/// The name of the file for the graph at index `idx`.
fn file_name(idx: usize, extension: &str) -> (name: String)
    requires
        idx < usize::MAX,
    ensures
        name@ == export_name(idx as nat, extension@),
{
    let mut name = String::from_str("s");
    push_decimal(&mut name, idx + 1);
    name.append(extension);
    assert(name@ =~= export_name(idx as nat, extension@));
    name
}

/// The file that holds the selected graph as a graph description. There is
/// none while the collection is empty.
pub fn dot_export<C: Fn(&TreebankModel, usize)>(model: &StatefulTreebankModel<C>) -> (r: Result<
    Export,
    Error,
>)
    ensures
        match r {
            Ok(file) => model@.selected() matches Some(graph) && file.filename@ == export_name(
                model@.idx as nat,
                DOT_EXTENSION@,
            ) && file.content@ == dot_text(graph@),
            Err(e) => e == Error::NoGraphSelected && model@.selected() is None,
        },
{
    let count = model.len();
    match model.graph() {
        None => Err(Error::NoGraphSelected),
        Some(graph) => match graph.dot() {
            Ok(content) => Ok(Export { filename: file_name(model.idx(), DOT_EXTENSION), content }),
            Err(e) => Err(e),
        },
    }
}

/// The file that holds the selected graph as a diagram. There is none while
/// the collection is empty.
pub fn tikz_export<C: Fn(&TreebankModel, usize)>(model: &StatefulTreebankModel<C>) -> (r: Result<
    Export,
    Error,
>)
    ensures
        match r {
            Ok(file) => model@.selected() matches Some(graph) && file.filename@ == export_name(
                model@.idx as nat,
                TIKZ_EXTENSION@,
            ) && file.content@ == tikz_text(graph@),
            Err(e) => e == Error::NoGraphSelected && model@.selected() is None,
        },
{
    let count = model.len();
    match model.graph() {
        None => Err(Error::NoGraphSelected),
        Some(graph) => match graph.tikz() {
            Ok(content) => Ok(Export { filename: file_name(model.idx(), TIKZ_EXTENSION), content }),
            Err(e) => Err(e),
        },
    }
}

} // verus!
