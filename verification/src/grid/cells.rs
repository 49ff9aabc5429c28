//! One cell of the grid: what its menu may offer, and what clicks on it mean.
use std::collections::{HashMap, HashSet};

use vstd::prelude::*;
use vstd::string::*;

use super::entries::{
    entry_title, is_entry_openable, openable_at, title_of, BookViewState, LibraryEntry,
    ThumbCellState,
};
use super::selection::{
    are_targets, collect_context_targets, count_selected, selection_count, KeyboardSelection,
    MultiClick,
};
use crate::text::{blank, decimal, decimal_text, fill_placeholder, filled, is_blank};

verus! {

/// What a menu asks for.
pub enum ContextAction {
    Open,
    MoveToFolder,
    Rename,
    Delete,
    Copy,
    OpenInExplorer,
    ToggleFavorite,
    ApplyFilterToken(String),
    RunExternalTool(usize),
    SetGroup,
    ClearBookSettings,
}

/// The grid as the caller gives it.
pub struct GridViewContext<'a> {
    pub entries: &'a Vec<LibraryEntry>,
    pub book_states: &'a HashMap<u64, BookViewState>,
    pub selected_idx: Option<usize>,
    /// In ascending order.
    pub selected_set: &'a HashSet<usize>,
    pub interaction_enabled: bool,
}

/// What the menu of a cell may offer.
pub struct CellMenuState {
    pub book_target_count: usize,
    pub book_settings_target_count: usize,
    pub rename_enabled: bool,
    pub can_start_external_drag: bool,
    pub show_token_menu_frame: bool,
    pub is_multi_selection: bool,
    pub open_enabled: bool,
    pub show_open_menu_item: bool,
    pub show_rename_menu_item: bool,
    pub show_open_in_explorer: bool,
    pub show_context_header: bool,
    pub context_header: String,
}

/// What clicks and the menu of a cell brought.
pub struct CellAction {
    pub plain_click: bool,
    pub ctrl_click: bool,
    pub shift_click: bool,
    pub double_click: bool,
    pub drag_started: bool,
    pub menu: CellContextMenuActions,
    pub context_menu_open: bool,
}

/// What the menu of a cell brought.
pub struct CellContextMenuActions {
    pub open: bool,
    pub move_to_folder: bool,
    pub rename: bool,
    pub delete: bool,
    pub copy: bool,
    pub open_in_explorer: bool,
    pub toggle_favorite: bool,
    pub set_group: bool,
    pub clear_book_settings: bool,
    pub external_tool: Option<usize>,
    pub filter_token: Option<String>,
}

/// How a cell was clicked.
#[derive(Clone, Copy, Debug, PartialEq, Eq, Structural)]
pub struct CellClickState {
    pub ctrl: bool,
    pub shift: bool,
    pub clicked: bool,
    pub double_click: bool,
    pub drag_started: bool,
}

pub open spec fn archive_at(entries: Seq<LibraryEntry>, idx: usize) -> bool {
    idx < entries.len() && entries[idx as int] is Archive
}

pub open spec fn book_at(entries: Seq<LibraryEntry>, idx: usize) -> bool {
    idx < entries.len() && (entries[idx as int] is Archive || entries[idx as int] is FolderBook)
}

/// How many of the targets are archives.
pub open spec fn archives_among(targets: Seq<usize>, entries: Seq<LibraryEntry>) -> nat
    decreases targets.len(),
{
    if targets.len() == 0 {
        0
    } else if archive_at(entries, targets.last()) {
        archives_among(targets.drop_last(), entries) + 1
    } else {
        archives_among(targets.drop_last(), entries)
    }
}

/// How many of the targets are books: archives, or folders that are read as one.
pub open spec fn books_among(targets: Seq<usize>, entries: Seq<LibraryEntry>) -> nat
    decreases targets.len(),
{
    if targets.len() == 0 {
        0
    } else if book_at(entries, targets.last()) {
        books_among(targets.drop_last(), entries) + 1
    } else {
        books_among(targets.drop_last(), entries)
    }
}

fn count_targets(targets: &Vec<usize>, entries: &Vec<LibraryEntry>) -> (counts: (usize, usize))
    ensures
        counts.0 == archives_among(targets@, entries@),
        counts.1 == books_among(targets@, entries@),
{
    let mut archives: usize = 0;
    let mut books: usize = 0;
    let mut i: usize = 0;
    let total: usize = targets.len();
    assert(targets@.take(0) =~= Seq::empty());
    while i < total
        invariant
            i <= total == targets@.len(),
            archives <= i,
            books <= i,
            archives == archives_among(targets@.take(i as int), entries@),
            books == books_among(targets@.take(i as int), entries@),
        decreases total - i,
    {
        assert(targets@.take(i + 1).drop_last() =~= targets@.take(i as int));
        assert(targets@.take(i + 1).last() == targets@[i as int]);
        let idx: usize = targets[i];
        if idx < entries.len() {
            match &entries[idx] {
                LibraryEntry::Archive(_) => {
                    archives = archives + 1;
                    books = books + 1;
                },
                LibraryEntry::FolderBook(_) => {
                    books = books + 1;
                },
                _ => {},
            }
        }
        i = i + 1;
    }
    assert(targets@.take(i as int) =~= targets@);
    (archives, books)
}

impl<'a> GridViewContext<'a> {
    pub open spec fn wf(self) -> bool {
        self.selected_set@.len() < usize::MAX
    }

    /// Whether a cell is selected.
    pub open spec fn selects(self, idx: usize) -> bool {
        self.selected_idx == Some(idx) || self.selected_set@.contains(idx)
    }

    pub open spec fn count(self) -> nat {
        selection_count(self.selected_idx, self.selected_set@)
    }

    /// Whether the menu of a cell speaks of these entries: all that are selected where the cell
    /// is one of them, else the cell alone.
    pub open spec fn targets_of(self, idx: usize, targets: Seq<usize>) -> bool {
        if self.selects(idx) {
            are_targets(targets, self.selected_idx, self.selected_set@)
        } else {
            targets == seq![idx]
        }
    }

    /// What the menu of a cell may offer. `header` is the template of its heading.
    pub open spec fn is_menu(self, idx: usize, header: Seq<char>, menu: CellMenuState) -> bool {
        let entry = self.entries@[idx as int];
        let several = self.count() > 1;
        let selected = self.selects(idx);
        &&& exists|targets: Seq<usize>| #[trigger]
            self.targets_of(idx, targets) && menu.book_target_count == archives_among(
                targets,
                self.entries@,
            ) && menu.book_settings_target_count == books_among(targets, self.entries@)
        &&& menu.rename_enabled == (selected ==> self.count() <= 1)
        &&& menu.can_start_external_drag == (self.interaction_enabled && selected && self.count()
            >= 1)
        &&& menu.show_token_menu_frame == (self.interaction_enabled && (selected ==> self.count()
            == 1) && entry is Archive && !blank(title_of(entry)))
        &&& menu.is_multi_selection == several
        &&& menu.open_enabled == (!several && openable_at(
            self.entries@,
            self.book_states@,
            idx as int,
        ))
        &&& menu.show_open_menu_item == !several
        &&& menu.show_rename_menu_item == (!several && entry is Archive)
        &&& menu.show_open_in_explorer == !several
        &&& menu.show_context_header == (several && selected)
        &&& menu.context_header@ == if several && selected {
            filled(header, decimal(self.count()))
        } else {
            Seq::empty()
        }
    }

    pub fn build_cell_menu_state(&self, idx: usize, header: &str) -> (menu: CellMenuState)
        requires
            self.wf(),
            idx < self.entries@.len(),
        ensures
            self.is_menu(idx, header@, menu),
    {
        broadcast use vstd::std_specs::hash::group_hash_axioms;

        let selected: bool = self.selected_idx == Some(idx) || self.selected_set.contains(&idx);
        let count: usize = count_selected(self.selected_idx, self.selected_set);
        let several: bool = count > 1;
        let is_archive: bool = match &self.entries[idx] {
            LibraryEntry::Archive(_) => true,
            _ => false,
        };
        let targets: Vec<usize> = if selected {
            collect_context_targets(self.selected_idx, self.selected_set)
        } else {
            let mut own: Vec<usize> = Vec::new();
            own.push(idx);
            assert(own@ =~= seq![idx]);
            own
        };
        let (book_target_count, book_settings_target_count): (usize, usize) = count_targets(
            &targets,
            self.entries,
        );
        assert(self.targets_of(idx, targets@));
        let show_context_header: bool = several && selected;
        let context_header: String = if show_context_header {
            fill_placeholder(header, decimal_text(count as u128).as_str())
        } else {
            String::new()
        };
        CellMenuState {
            book_target_count,
            book_settings_target_count,
            rename_enabled: !selected || count <= 1,
            can_start_external_drag: self.interaction_enabled && selected && count >= 1,
            show_token_menu_frame: self.interaction_enabled && (!selected || count == 1)
                && is_archive && !is_blank(entry_title(&self.entries[idx])),
            is_multi_selection: several,
            open_enabled: !several && is_entry_openable(self.entries, self.book_states, idx),
            show_open_menu_item: !several,
            show_rename_menu_item: !several && is_archive,
            show_open_in_explorer: !several,
            show_context_header,
            context_header,
        }
    }
}

/// Whether a double click opens the entry: its picture is there, or it is a folder; an image also
/// while the cell is out of sight.
pub open spec fn double_click_opens(
    entry: LibraryEntry,
    thumb_state: ThumbCellState,
    allow_image: bool,
) -> bool {
    ||| thumb_state is Ready
    ||| entry is Folder
    ||| entry is FolderBook
    ||| allow_image && entry is ImageFile
}

pub fn build_cell_action(
    entry: &LibraryEntry,
    thumb_state: ThumbCellState,
    can_start_external_drag: bool,
    click: CellClickState,
    menu: CellContextMenuActions,
    context_menu_open: bool,
    allow_image_file_double_click: bool,
) -> (action: CellAction)
    ensures
        action == (CellAction {
            plain_click: click.clicked && !click.ctrl && !click.shift && !click.double_click,
            ctrl_click: click.clicked && click.ctrl && !click.double_click,
            shift_click: click.clicked && click.shift && !click.double_click,
            double_click: click.double_click && double_click_opens(
                *entry,
                thumb_state,
                allow_image_file_double_click,
            ),
            drag_started: click.drag_started && can_start_external_drag,
            menu,
            context_menu_open,
        }),
{
    let is_folder: bool = match entry {
        LibraryEntry::Folder(_) => true,
        LibraryEntry::FolderBook(_) => true,
        _ => false,
    };
    let is_image: bool = match entry {
        LibraryEntry::ImageFile(_) => true,
        _ => false,
    };
    CellAction {
        plain_click: click.clicked && !click.ctrl && !click.shift && !click.double_click,
        ctrl_click: click.clicked && click.ctrl && !click.double_click,
        shift_click: click.clicked && click.shift && !click.double_click,
        double_click: (click.double_click && (thumb_state.is_ready() || is_folder)) || (
        allow_image_file_double_click && click.double_click && is_image),
        drag_started: click.drag_started && can_start_external_drag,
        menu,
        context_menu_open,
    }
}

/// What the menu of a cell asks for, if anything; one thing counts, in the order of the list.
pub open spec fn asked_for(menu: CellContextMenuActions) -> Option<ContextAction> {
    match menu.filter_token {
        Some(token) => Some(ContextAction::ApplyFilterToken(token)),
        None => if menu.open {
            Some(ContextAction::Open)
        } else if menu.move_to_folder {
            Some(ContextAction::MoveToFolder)
        } else if menu.rename {
            Some(ContextAction::Rename)
        } else if menu.delete {
            Some(ContextAction::Delete)
        } else if menu.copy {
            Some(ContextAction::Copy)
        } else if menu.open_in_explorer {
            Some(ContextAction::OpenInExplorer)
        } else if menu.toggle_favorite {
            Some(ContextAction::ToggleFavorite)
        } else if menu.set_group {
            Some(ContextAction::SetGroup)
        } else if menu.clear_book_settings {
            Some(ContextAction::ClearBookSettings)
        } else {
            match menu.external_tool {
                Some(tool_index) => Some(ContextAction::RunExternalTool(tool_index)),
                None => None,
            }
        },
    }
}

pub fn context_action_from_cell_action(idx: usize, action: &CellAction) -> (asked: Option<
    (usize, ContextAction),
>)
    ensures
        asked == match asked_for(action.menu) {
            Some(asked) => Some((idx, asked)),
            None => None,
        },
{
    let menu: &CellContextMenuActions = &action.menu;
    match &menu.filter_token {
        Some(token) => {
            return Some((idx, ContextAction::ApplyFilterToken(token.clone())));
        },
        None => {},
    }
    if menu.open {
        Some((idx, ContextAction::Open))
    } else if menu.move_to_folder {
        Some((idx, ContextAction::MoveToFolder))
    } else if menu.rename {
        Some((idx, ContextAction::Rename))
    } else if menu.delete {
        Some((idx, ContextAction::Delete))
    } else if menu.copy {
        Some((idx, ContextAction::Copy))
    } else if menu.open_in_explorer {
        Some((idx, ContextAction::OpenInExplorer))
    } else if menu.toggle_favorite {
        Some((idx, ContextAction::ToggleFavorite))
    } else if menu.set_group {
        Some((idx, ContextAction::SetGroup))
    } else if menu.clear_book_settings {
        Some((idx, ContextAction::ClearBookSettings))
    } else {
        match menu.external_tool {
            Some(tool_index) => Some((idx, ContextAction::RunExternalTool(tool_index))),
            None => None,
        }
    }
}

/// What the cells of a frame brought.
pub struct GridFrame {
    pub click_selected: Option<usize>,
    pub click_ctrl: Option<usize>,
    pub click_shift: Option<usize>,
    pub click_opened: Option<usize>,
    pub drag_started: Option<usize>,
    pub context_action: Option<(usize, ContextAction)>,
    pub any_context_menu_open: bool,
}

/// The outcome of a frame of the grid.
pub struct GridResult {
    /// An entry selected by a click or by the keys.
    pub selected: Option<KeyboardSelection>,
    pub multi_select: Option<MultiClick>,
    pub opened: Option<usize>,
    pub context_action: Option<(usize, ContextAction)>,
    pub drag_started: Option<usize>,
    /// Whether a menu stays open into the next frame.
    pub context_menu_open: bool,
}

pub open spec fn noted_if(noted: bool, idx: usize, before: Option<usize>) -> Option<usize> {
    if noted {
        Some(idx)
    } else {
        before
    }
}

impl GridFrame {
    /// The frame with one more cell looked at: of clicks the latest counts, of menus the first.
    pub open spec fn with_cell(self, idx: usize, action: CellAction) -> GridFrame {
        GridFrame {
            click_selected: noted_if(action.plain_click, idx, self.click_selected),
            click_ctrl: noted_if(action.ctrl_click, idx, self.click_ctrl),
            click_shift: noted_if(action.shift_click, idx, self.click_shift),
            click_opened: noted_if(action.double_click, idx, self.click_opened),
            drag_started: noted_if(action.drag_started, idx, self.drag_started),
            context_action: match (self.context_action, asked_for(action.menu)) {
                (Some(first), _) => Some(first),
                (None, Some(asked)) => Some((idx, asked)),
                (None, None) => None,
            },
            any_context_menu_open: self.any_context_menu_open || action.context_menu_open,
        }
    }

    pub fn new() -> (frame: Self)
        ensures
            frame == (GridFrame {
                click_selected: None,
                click_ctrl: None,
                click_shift: None,
                click_opened: None,
                drag_started: None,
                context_action: None,
                any_context_menu_open: false,
            }),
    {
        GridFrame {
            click_selected: None,
            click_ctrl: None,
            click_shift: None,
            click_opened: None,
            drag_started: None,
            context_action: None,
            any_context_menu_open: false,
        }
    }

    pub fn note_cell(&mut self, idx: usize, action: &CellAction)
        ensures
            *final(self) == old(self).with_cell(idx, *action),
    {
        if action.plain_click {
            self.click_selected = Some(idx);
        }
        if action.ctrl_click {
            self.click_ctrl = Some(idx);
        }
        if action.shift_click {
            self.click_shift = Some(idx);
        }
        if action.double_click {
            self.click_opened = Some(idx);
        }
        if action.drag_started {
            self.drag_started = Some(idx);
        }
        if action.context_menu_open {
            self.any_context_menu_open = true;
        }
        if self.context_action.is_none() {
            self.context_action = context_action_from_cell_action(idx, action);
        }
    }

    /// The outcome of the frame: a click goes before the keys, and Ctrl before Shift.
    pub fn assemble_grid_result(
        self,
        key_selected: Option<KeyboardSelection>,
        keyboard_opened: Option<usize>,
    ) -> (result: GridResult)
        ensures
            result == (GridResult {
                selected: match self.click_selected {
                    Some(idx) => Some(KeyboardSelection::Plain(idx)),
                    None => key_selected,
                },
                multi_select: match (self.click_ctrl, self.click_shift) {
                    (Some(idx), _) => Some(MultiClick::Ctrl(idx)),
                    (None, Some(idx)) => Some(MultiClick::Shift(idx)),
                    (None, None) => None,
                },
                opened: match self.click_opened {
                    Some(idx) => Some(idx),
                    None => keyboard_opened,
                },
                context_action: self.context_action,
                drag_started: self.drag_started,
                context_menu_open: self.any_context_menu_open,
            }),
    {
        let selected: Option<KeyboardSelection> = match self.click_selected {
            Some(idx) => Some(KeyboardSelection::Plain(idx)),
            None => key_selected,
        };
        let multi_select: Option<MultiClick> = match (self.click_ctrl, self.click_shift) {
            (Some(idx), _) => Some(MultiClick::Ctrl(idx)),
            (None, Some(idx)) => Some(MultiClick::Shift(idx)),
            (None, None) => None,
        };
        let opened: Option<usize> = match self.click_opened {
            Some(idx) => Some(idx),
            None => keyboard_opened,
        };
        GridResult {
            selected,
            multi_select,
            opened,
            context_action: self.context_action,
            drag_started: self.drag_started,
            context_menu_open: self.any_context_menu_open,
        }
    }
}

/// The menu of the first cell that asked for something is the one that counts.
pub proof fn law_first_menu_counts(frame: GridFrame, idx: usize, action: CellAction)
    requires
        frame.context_action is Some,
    ensures
        frame.with_cell(idx, action).context_action == frame.context_action,
{
}

/// Archives are books, and no more targets are books than there are targets.
pub proof fn law_archives_are_books(targets: Seq<usize>, entries: Seq<LibraryEntry>)
    ensures
        archives_among(targets, entries) <= books_among(targets, entries) <= targets.len(),
    decreases targets.len(),
{
    if targets.len() > 0 {
        law_archives_are_books(targets.drop_last(), entries);
    }
}

/// Books are counted one by one: an archive counts as archive and book, a folder that is read as a
/// book as book alone, and nothing else counts.
pub proof fn law_targets_are_counted_by_kind(
    targets: Seq<usize>,
    idx: usize,
    entries: Seq<LibraryEntry>,
)
    ensures
        ({
            let more = targets.push(idx);
            let archives = archives_among(more, entries) - archives_among(targets, entries);
            let books = books_among(more, entries) - books_among(targets, entries);
            &&& idx >= entries.len() ==> archives == 0 && books == 0
            &&& idx < entries.len() && entries[idx as int] is Archive ==> archives == 1 && books
                == 1
            &&& idx < entries.len() && entries[idx as int] is FolderBook ==> archives == 0 && books
                == 1
            &&& idx < entries.len() && (entries[idx as int] is Folder || entries[idx as int]
                is ImageFile) ==> archives == 0 && books == 0
        }),
{
    assert(targets.push(idx).drop_last() =~= targets);
}

/// A double click opens what can be opened: folders at any time, others once their picture is
/// there, and images also where that is allowed.
pub proof fn law_double_clicks_open(entry: LibraryEntry, state: ThumbCellState)
    ensures
        entry is Folder || entry is FolderBook ==> double_click_opens(entry, state, false),
        state is Ready ==> double_click_opens(entry, state, false),
        entry is Archive && !(state is Ready) ==> !double_click_opens(entry, state, true),
        entry is ImageFile && !(state is Ready) ==> !double_click_opens(entry, state, false)
            && double_click_opens(entry, state, true),
{
}

/// A menu that brought one thing asks for that thing, a filter goes before all else, and a menu
/// that brought nothing asks for nothing.
pub proof fn law_menus_ask_for_what_they_brought(menu: CellContextMenuActions)
    ensures
        menu.filter_token matches Some(token) ==> asked_for(menu) == Some(
            ContextAction::ApplyFilterToken(token),
        ),
        menu.filter_token is None ==> {
            let (a, b, c, d, e) = (
                menu.open,
                menu.move_to_folder,
                menu.rename,
                menu.delete,
                menu.copy,
            );
            let (f, g, h, i) = (
                menu.open_in_explorer,
                menu.toggle_favorite,
                menu.set_group,
                menu.clear_book_settings,
            );
            &&& asked_for(menu) == Some(ContextAction::Open) <==> a
            &&& asked_for(menu) == Some(ContextAction::MoveToFolder) ==> b
            &&& asked_for(menu) == Some(ContextAction::Rename) ==> c
            &&& asked_for(menu) == Some(ContextAction::Delete) ==> d
            &&& asked_for(menu) == Some(ContextAction::Copy) ==> e
            &&& asked_for(menu) == Some(ContextAction::OpenInExplorer) ==> f
            &&& asked_for(menu) == Some(ContextAction::ToggleFavorite) ==> g
            &&& asked_for(menu) == Some(ContextAction::SetGroup) ==> h
            &&& asked_for(menu) == Some(ContextAction::ClearBookSettings) ==> i
            &&& !a && !b && !c && d ==> asked_for(menu) == Some(ContextAction::Delete)
            &&& !a && !b && !c && !d && e ==> asked_for(menu) == Some(ContextAction::Copy)
            &&& asked_for(menu) is None <==> !a && !b && !c && !d && !e && !f && !g && !h && !i
                && menu.external_tool is None
        },
{
}

/// Of several cells that were clicked in a frame the latest counts, and a cell that was not clicked
/// changes nothing.
pub proof fn law_latest_click_counts(frame: GridFrame, idx: usize, action: CellAction)
    ensures
        ({
            let after = frame.with_cell(idx, action);
            &&& action.plain_click ==> after.click_selected == Some(idx)
            &&& !action.plain_click ==> after.click_selected == frame.click_selected
            &&& action.ctrl_click ==> after.click_ctrl == Some(idx)
            &&& !action.ctrl_click ==> after.click_ctrl == frame.click_ctrl
            &&& action.shift_click ==> after.click_shift == Some(idx)
            &&& !action.shift_click ==> after.click_shift == frame.click_shift
            &&& action.double_click ==> after.click_opened == Some(idx)
            &&& !action.double_click ==> after.click_opened == frame.click_opened
            &&& action.drag_started ==> after.drag_started == Some(idx)
            &&& !action.drag_started ==> after.drag_started == frame.drag_started
            &&& frame.context_action is None && asked_for(action.menu) is None
                ==> after.context_action is None
            &&& frame.context_action is None ==> (asked_for(action.menu) matches Some(asked)
                ==> after.context_action == Some((idx, asked)))
            &&& after.any_context_menu_open <==> frame.any_context_menu_open
                || action.context_menu_open
        }),
{
}

/// What a menu offers: with several entries selected neither opening nor renaming; renaming for a
/// single archive; opening where the entry can be opened.
pub proof fn law_menus_offer_what_can_be_done(
    grid: GridViewContext<'_>,
    idx: usize,
    header: Seq<char>,
    menu: CellMenuState,
)
    requires
        grid.is_menu(idx, header, menu),
        idx < grid.entries@.len(),
        grid.selected_set@.finite(),
    ensures
        grid.selected_set@.len() > 1 ==> menu.is_multi_selection && !menu.open_enabled
            && !menu.show_open_menu_item && !menu.show_rename_menu_item
            && !menu.show_open_in_explorer,
        grid.selected_set@.len() == 0 ==> !menu.is_multi_selection && menu.show_open_menu_item
            && menu.show_open_in_explorer && (menu.show_rename_menu_item
            <==> grid.entries@[idx as int] is Archive) && menu.rename_enabled && (menu.open_enabled
            <==> openable_at(grid.entries@, grid.book_states@, idx as int))
            && menu.context_header@.len() == 0 && !menu.show_context_header,
        grid.selected_set@.len() > 1 && grid.selected_set@.contains(idx)
            ==> menu.show_context_header && !menu.rename_enabled,
        !grid.interaction_enabled ==> !menu.can_start_external_drag && !menu.show_token_menu_frame,
        menu.can_start_external_drag ==> grid.selected_idx == Some(idx)
            || grid.selected_set@.contains(idx),
        menu.show_token_menu_frame ==> grid.entries@[idx as int] is Archive,
{
}

} // verus!
