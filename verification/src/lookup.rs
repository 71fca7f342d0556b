//! What the file system holds at a path. The library does not look itself:
//! whoever calls it looks, and hands over what was found.

use vstd::prelude::*;
use vstd::string::*;

verus! {

/// The outcome of asking the file system about a path, as a mathematical
/// value.
pub enum LookupView {
    File,
    Directory,
    Other,
    Failed(Seq<char>),
}

/// The outcome of asking the file system about a path.
#[derive(Debug)]
pub enum Lookup {
    /// There is a regular file.
    File,
    /// There is a directory.
    Directory,
    /// There is something that is neither.
    Other,
    /// The question could not be answered; the text says why.
    Failed(String),
}

impl View for Lookup {
    type V = LookupView;

    open spec fn view(&self) -> LookupView {
        match self {
            Lookup::File => LookupView::File,
            Lookup::Directory => LookupView::Directory,
            Lookup::Other => LookupView::Other,
            Lookup::Failed(reason) => LookupView::Failed(reason@),
        }
    }
}

/// The views of a sequence of lookups, in the same order.
pub open spec fn lookup_views(lookups: Seq<Lookup>) -> Seq<LookupView> {
    lookups.map_values(|l: Lookup| l@)
}

} // verus!
