//! The shelf: the base directory that every subject and note is resolved
//! against.

use vstd::prelude::*;
use crate::error::Error;
use crate::path::{LogicalPath, Part, parse_parts};

verus! {

/// Options shared by the operations that export items to a shelf.
#[derive(Debug, Clone, Copy)]
pub struct ExportOptions {
    /// Whether exporting an item that exists already is an error.
    pub strict: bool,
}

impl ExportOptions {
    /// All options off.
    pub fn new() -> (r: ExportOptions)
        ensures
            !r.strict,
    {
        ExportOptions { strict: false }
    }

    /// Sets the strictness of the export.
    pub fn strict(&mut self, strict: bool) -> (r: &mut ExportOptions)
        ensures
            r.strict == strict,
            *final(self) == *final(r),
    {
        self.strict = strict;
        self
    }
}

/// The base directory of a collection of subjects and notes. Whether the
/// directory exists is a fact of the file system, not of this value.
#[derive(Debug)]
pub struct Shelf {
    path: LogicalPath,
}

impl View for Shelf {
    type V = Seq<Part>;

    closed spec fn view(&self) -> Seq<Part> {
        self.path@
    }
}

impl Shelf {
    /// A shelf rooted at `path`.
    pub fn new(path: &str) -> (r: Shelf)
        ensures
            r@ == parse_parts(path@),
    {
        Shelf { path: LogicalPath::parse(path) }
    }

    /// A shelf rooted at `path`, given whether a directory exists there:
    /// a shelf can only be opened on an existing directory.
    pub fn from(path: &str, is_dir: bool) -> (r: Result<Shelf, Error>)
        ensures
            is_dir ==> (r matches Ok(s) && s@ == parse_parts(path@)),
            !is_dir ==> r matches Err(Error::ValueError),
    {
        if !is_dir {
            return Err(Error::ValueError);
        }
        Ok(Shelf::new(path))
    }

    /// The root of the shelf.
    pub fn path(&self) -> (r: LogicalPath)
        ensures
            r@ == self@,
    {
        self.path.copy()
    }

    /// Moves the shelf's root to `to` and returns the old root. Where the
    /// directory exists, the caller renames it first and calls this only
    /// when the rename succeeded.
    pub fn set_path(&mut self, to: &str) -> (r: LogicalPath)
        ensures
            r@ == old(self)@,
            final(self)@ == parse_parts(to@),
    {
        let old_path = self.path.copy();
        self.path = LogicalPath::parse(to);
        old_path
    }
}

/// Something that has a place in a shelf.
pub trait ShelfItem<S> {
    /// Where the item lives, as a path.
    spec fn spec_path_in_shelf(&self, params: S) -> Seq<Part>;

    /// Where the item lives in the shelf.
    fn path_in_shelf(&self, params: S) -> (r: LogicalPath)
        ensures
            r@ == self.spec_path_in_shelf(params),
    ;
}

} // verus!
