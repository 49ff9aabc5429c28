//! Settings and book data that the viewer's rules read.
use vstd::prelude::*;

verus! {

/// Decode quality of a page.
#[derive(Clone, Copy, Debug, PartialEq, Eq, Hash, Structural)]
pub enum ViewerQuality {
    Speed,
    Balanced,
    Quality,
    Original,
}

/// How pages are paired on screen.
#[derive(Clone, Copy, Debug, PartialEq, Eq, Hash, Structural)]
pub enum SpreadMode {
    Auto,
    Single,
    Spread,
}

#[derive(Clone, Copy, Debug, PartialEq, Eq, Hash, Structural)]
pub enum ReadingDirection {
    RightToLeft,
    LeftToRight,
}

/// Identity of a book. Two books are the same if and only if their ids are equal.
#[derive(Clone, Copy, Debug, PartialEq, Eq, Hash, Structural)]
pub struct BookId(pub u64);

/// A book of the library.
#[derive(Debug)]
pub struct BookMeta {
    pub id: BookId,
    pub path: String,
    pub title: String,
}

/// What is known of one page before it is decoded.
pub struct PageMapEntry {
    pub width: u32,
    pub height: u32,
    /// Name of the page's entry in the archive.
    pub entry_name: String,
}

/// Size and entry name of each page of a book, in physical page order.
pub struct BookPageMap {
    pub pages: Vec<PageMapEntry>,
}

impl BookPageMap {
    pub fn page_count(&self) -> (count: usize)
        ensures
            count == self.pages@.len(),
    {
        self.pages.len()
    }
}

} // verus!
