//! The entries of the library, and what is known of their pictures.
use std::collections::HashMap;

use vstd::prelude::*;
use vstd::string::*;

use crate::viewer::texture_entries::TextureRef;

verus! {

broadcast use vstd::std_specs::hash::group_hash_axioms;

/// An archive of the library.
pub struct ArchiveEntry {
    /// The number of the book.
    pub id: u64,
    pub path: String,
    pub title: String,
    pub size: u64,
}

/// A folder, or an image that stands on its own.
pub struct FolderEntry {
    /// The number that its picture is kept under, where it has one.
    pub thumb_id: Option<u64>,
    pub title: String,
}

pub enum LibraryEntry {
    Archive(ArchiveEntry),
    Folder(FolderEntry),
    /// A folder that is read as a book.
    FolderBook(FolderEntry),
    ImageFile(FolderEntry),
}

/// What is known of a book's picture.
#[derive(Clone, Copy, Debug, PartialEq, Eq, Structural)]
pub struct BookViewState {
    pub texture: Option<TextureRef>,
    pub thumb_failed: bool,
}

#[derive(Clone, Copy, Debug, PartialEq, Eq, Structural)]
pub enum ThumbCellState {
    Folder,
    Loading,
    Ready(TextureRef),
    Failed,
}

impl ThumbCellState {
    pub fn is_ready(self) -> (ready: bool)
        ensures
            ready == (self is Ready),
    {
        match self {
            ThumbCellState::Ready(_) => true,
            _ => false,
        }
    }
}

pub open spec fn title_of(entry: LibraryEntry) -> Seq<char> {
    match entry {
        LibraryEntry::Archive(entry) => entry.title@,
        LibraryEntry::Folder(entry) => entry.title@,
        LibraryEntry::FolderBook(entry) => entry.title@,
        LibraryEntry::ImageFile(entry) => entry.title@,
    }
}

pub fn entry_title(entry: &LibraryEntry) -> (title: &str)
    ensures
        title@ == title_of(*entry),
{
    match entry {
        LibraryEntry::Archive(entry) => entry.title.as_str(),
        LibraryEntry::Folder(entry) => entry.title.as_str(),
        LibraryEntry::FolderBook(entry) => entry.title.as_str(),
        LibraryEntry::ImageFile(entry) => entry.title.as_str(),
    }
}

/// The number that an entry's picture is kept under.
pub open spec fn thumb_id_of(entry: LibraryEntry) -> Option<u64> {
    match entry {
        LibraryEntry::Archive(entry) => Some(entry.id),
        LibraryEntry::Folder(entry) => entry.thumb_id,
        LibraryEntry::FolderBook(entry) => entry.thumb_id,
        LibraryEntry::ImageFile(entry) => entry.thumb_id,
    }
}

/// What a cell shows: a folder as such; else the picture, a mark that it could not be made, or
/// that it is on its way.
pub open spec fn cell_state(entry: LibraryEntry, states: Map<u64, BookViewState>) -> ThumbCellState {
    match entry {
        LibraryEntry::Folder(_) => ThumbCellState::Folder,
        _ => match thumb_id_of(entry) {
            Some(id) => if states.contains_key(id) {
                match states[id].texture {
                    Some(texture) => ThumbCellState::Ready(texture),
                    None => if states[id].thumb_failed {
                        ThumbCellState::Failed
                    } else {
                        ThumbCellState::Loading
                    },
                }
            } else {
                ThumbCellState::Loading
            },
            None => ThumbCellState::Loading,
        },
    }
}

pub fn thumb_cell_state(entry: &LibraryEntry, book_states: &HashMap<u64, BookViewState>) -> (state:
    ThumbCellState)
    ensures
        state == cell_state(*entry, book_states@),
{
    let id: Option<u64> = match entry {
        LibraryEntry::Folder(_) => {
            return ThumbCellState::Folder;
        },
        LibraryEntry::Archive(entry) => Some(entry.id),
        LibraryEntry::FolderBook(entry) => entry.thumb_id,
        LibraryEntry::ImageFile(entry) => entry.thumb_id,
    };
    let id: u64 = match id {
        Some(id) => id,
        None => {
            return ThumbCellState::Loading;
        },
    };
    match book_states.get(&id) {
        Some(state) => match state.texture {
            Some(texture) => ThumbCellState::Ready(texture),
            None => if state.thumb_failed {
                ThumbCellState::Failed
            } else {
                ThumbCellState::Loading
            },
        },
        None => ThumbCellState::Loading,
    }
}

/// Whether an entry can be opened: an archive once its picture is there, all others at any time.
pub open spec fn openable(entry: LibraryEntry, states: Map<u64, BookViewState>) -> bool {
    match entry {
        LibraryEntry::Archive(entry) => states.contains_key(entry.id)
            && states[entry.id].texture is Some && !states[entry.id].thumb_failed,
        _ => true,
    }
}

pub open spec fn openable_at(
    entries: Seq<LibraryEntry>,
    states: Map<u64, BookViewState>,
    idx: int,
) -> bool {
    0 <= idx < entries.len() && openable(entries[idx], states)
}

pub fn is_entry_openable(
    entries: &Vec<LibraryEntry>,
    book_states: &HashMap<u64, BookViewState>,
    idx: usize,
) -> (yes: bool)
    ensures
        yes == openable_at(entries@, book_states@, idx as int),
{
    if idx >= entries.len() {
        return false;
    }
    match &entries[idx] {
        LibraryEntry::Archive(entry) => match book_states.get(&entry.id) {
            Some(state) => state.texture.is_some() && !state.thumb_failed,
            None => false,
        },
        _ => true,
    }
}

/// An archive that can be opened shows its picture.
pub proof fn law_openable_archives_show_their_picture(
    entry: LibraryEntry,
    states: Map<u64, BookViewState>,
)
    requires
        entry is Archive,
        openable(entry, states),
    ensures
        cell_state(entry, states) is Ready,
{
}

/// An archive can be opened once its picture is there and did not fail; all other entries can be
/// opened at any time, and none outside the library.
pub proof fn law_archives_open_with_their_picture(
    entries: Seq<LibraryEntry>,
    states: Map<u64, BookViewState>,
    idx: int,
)
    ensures
        idx < 0 || idx >= entries.len() ==> !openable_at(entries, states, idx),
        0 <= idx < entries.len() && !(entries[idx] is Archive) ==> openable_at(
            entries,
            states,
            idx,
        ),
        0 <= idx < entries.len() ==> (entries[idx] matches LibraryEntry::Archive(archive) ==> {
            &&& !states.contains_key(archive.id) ==> !openable_at(entries, states, idx)
            &&& states.contains_key(archive.id) && (states[archive.id].texture is None
                || states[archive.id].thumb_failed) ==> !openable_at(entries, states, idx)
            &&& states.contains_key(archive.id) && states[archive.id].texture is Some
                && !states[archive.id].thumb_failed ==> openable_at(entries, states, idx)
        }),
{
}

/// A cell shows its picture where there is one, a mark where it could not be made, and else that it
/// is on its way; a folder has no picture.
pub proof fn law_cells_show_their_picture(archive: ArchiveEntry, folder: FolderEntry, states: Map<
    u64,
    BookViewState,
>)
    ensures
        cell_state(LibraryEntry::Folder(folder), states) == ThumbCellState::Folder,
        !states.contains_key(archive.id) ==> cell_state(LibraryEntry::Archive(archive), states)
            == ThumbCellState::Loading,
        states.contains_key(archive.id) ==> {
            let state = states[archive.id];
            let shown = cell_state(LibraryEntry::Archive(archive), states);
            &&& state.texture matches Some(texture) ==> shown == ThumbCellState::Ready(texture)
            &&& state.texture is None && state.thumb_failed ==> shown == ThumbCellState::Failed
            &&& state.texture is None && !state.thumb_failed ==> shown == ThumbCellState::Loading
        },
        folder.thumb_id == Some(archive.id) ==> cell_state(
            LibraryEntry::FolderBook(folder),
            states,
        ) == cell_state(LibraryEntry::Archive(archive), states) && cell_state(
            LibraryEntry::ImageFile(folder),
            states,
        ) == cell_state(LibraryEntry::Archive(archive), states),
        folder.thumb_id is None ==> cell_state(LibraryEntry::FolderBook(folder), states)
            == ThumbCellState::Loading,
{
}

} // verus!
