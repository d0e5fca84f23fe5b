//! The `Location` value: a filesystem path with an optional line/column
//! position.

use vstd::prelude::*;

verus! {

/// A line/column position inside a file.  Both numbers are kept exactly as
/// they were parsed; the resolver does not reject zero.
#[derive(Clone, Copy, Debug, Default, PartialEq, Eq, PartialOrd, Ord, Structural)]
pub struct LineCol {
    pub line: usize,
    pub column: usize,
}

/// A resolved location: a filesystem path (absolute or relative, possibly
/// containing colon characters) plus an optional position.  A `PathObject`
/// is built once per command-line argument and never mutated afterwards.
#[derive(Debug, Default, PartialEq, Eq, PartialOrd, Ord)]
pub struct PathObject {
    pub path: String,
    pub linecol: Option<LineCol>,
}

/// The mathematical value of a [`PathObject`]: the path as a sequence of
/// characters, plus the optional position.  Contracts speak of this model.
pub struct Loc {
    pub path: Seq<char>,
    pub linecol: Option<LineCol>,
}

impl View for PathObject {
    type V = Loc;

    open spec fn view(&self) -> Loc {
        Loc { path: self.path@, linecol: self.linecol }
    }
}

impl DeepView for PathObject {
    type V = Loc;

    open spec fn deep_view(&self) -> Loc {
        self.view()
    }
}

impl Clone for PathObject {
    fn clone(&self) -> (res: Self)
        ensures
            res == *self,
    {
        PathObject { path: self.path.clone(), linecol: self.linecol }
    }
}

/// Builds the model value of a location; shorthand used by the resolver's
/// specification.
pub open spec fn loc(path: Seq<char>, linecol: Option<LineCol>) -> Loc {
    Loc { path, linecol }
}

impl PathObject {
    /// A location with no position.  The path is stored verbatim.
    pub fn from_path(path: String) -> (r: PathObject)
        ensures
            r@ == loc(path@, None::<LineCol>),
    {
        PathObject { path, linecol: None }
    }

    /// A location at the given line and column.  The path is stored verbatim.
    pub fn from(path: String, line: usize, column: usize) -> (r: PathObject)
        ensures
            r@ == loc(path@, Some(LineCol { line, column })),
    {
        PathObject { path, linecol: Some(LineCol { line, column }) }
    }
}

} // verus!
