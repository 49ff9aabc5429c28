//! The rows of a cell's menu.
use vstd::prelude::*;

use super::cells::{CellContextMenuActions, CellMenuState};
use super::entries::LibraryEntry;

verus! {

/// A tool in the menu.
pub struct ExternalToolMenuItem {
    pub tool_index: usize,
    pub name: String,
    pub shortcut: char,
}

/// A row of the menu.
#[derive(Clone, Copy, Debug, PartialEq, Eq, Structural)]
pub enum MenuRow {
    Separator,
    Open { enabled: bool, as_folder: bool },
    OpenInExplorer,
    MoveToFolder,
    ToggleFavorite { is_favorite: bool },
    SetGroup,
    ClearBookSettings,
    Rename { enabled: bool },
    /// A note that several entries cannot be renamed.
    RenameUnavailable,
    Copy,
    Delete,
    ExternalTools { enabled: bool },
}

/// What the menu of a cell goes by, besides its state.
#[derive(Clone, Copy, Debug, PartialEq, Eq, Structural)]
pub struct MenuContext {
    pub can_toggle_favorite: bool,
    pub is_favorite: bool,
    pub tool_count: usize,
    pub external_tool_busy: bool,
}

pub open spec fn row_if(shown: bool, row: MenuRow) -> Seq<MenuRow> {
    if shown {
        seq![row]
    } else {
        Seq::empty()
    }
}

pub open spec fn open_section(entry: LibraryEntry, menu: CellMenuState) -> Seq<MenuRow> {
    if menu.show_open_menu_item {
        seq![
            MenuRow::Open {
                enabled: menu.open_enabled,
                as_folder: entry is Folder || entry is FolderBook,
            },
        ] + row_if(menu.show_open_in_explorer, MenuRow::OpenInExplorer) + row_if(
            entry is FolderBook,
            MenuRow::MoveToFolder,
        )
    } else {
        Seq::empty()
    }
}

pub open spec fn favorite_section(menu: CellMenuState, context: MenuContext) -> Seq<MenuRow> {
    row_if(
        context.can_toggle_favorite && !menu.is_multi_selection,
        MenuRow::ToggleFavorite { is_favorite: context.is_favorite },
    ) + row_if(menu.book_target_count >= 1, MenuRow::SetGroup)
}

pub open spec fn file_section(menu: CellMenuState) -> Seq<MenuRow> {
    let rename = !menu.is_multi_selection && menu.show_rename_menu_item;
    row_if(rename, MenuRow::Rename { enabled: menu.rename_enabled }) + row_if(
        rename && !menu.rename_enabled,
        MenuRow::RenameUnavailable,
    ) + seq![MenuRow::Copy, MenuRow::Delete]
}

/// A section behind the rows before it, with a separator where both are there.
pub open spec fn with_section(rows: Seq<MenuRow>, section: Seq<MenuRow>) -> Seq<MenuRow> {
    if section.len() == 0 {
        rows
    } else if rows.len() == 0 {
        section
    } else {
        rows.push(MenuRow::Separator) + section
    }
}

/// The rows of a cell's menu, below its heading.
pub open spec fn menu_rows(entry: LibraryEntry, menu: CellMenuState, context: MenuContext) -> Seq<
    MenuRow,
> {
    with_section(
        with_section(
            with_section(
                with_section(open_section(entry, menu), favorite_section(menu, context)),
                row_if(menu.book_settings_target_count >= 1, MenuRow::ClearBookSettings),
            ),
            file_section(menu),
        ),
        row_if(
            context.tool_count > 0 && menu.book_target_count >= 1,
            MenuRow::ExternalTools { enabled: !context.external_tool_busy },
        ),
    )
}

/// Puts a section behind the rows before it.
fn push_section(rows: &mut Vec<MenuRow>, section: Vec<MenuRow>)
    ensures
        final(rows)@ == with_section(old(rows)@, section@),
{
    if section.len() == 0 {
        return;
    }
    if rows.len() > 0 {
        rows.push(MenuRow::Separator);
    }
    let ghost before = rows@;
    let mut i: usize = 0;
    assert(before + section@.take(0) =~= before);
    while i < section.len()
        invariant
            i <= section@.len(),
            rows@ == before + section@.take(i as int),
        decreases section@.len() - i,
    {
        rows.push(section[i]);
        i = i + 1;
        assert(rows@ =~= before + section@.take(i as int));
    }
    assert(section@.take(i as int) =~= section@);
    assert(rows@ =~= with_section(old(rows)@, section@));
}

pub fn build_context_menu(entry: &LibraryEntry, menu: &CellMenuState, context: &MenuContext) -> (rows:
    Vec<MenuRow>)
    ensures
        rows@ == menu_rows(*entry, *menu, *context),
{
    let mut rows: Vec<MenuRow> = Vec::new();
    let (as_folder, is_folder_book): (bool, bool) = match entry {
        LibraryEntry::Folder(_) => (true, false),
        LibraryEntry::FolderBook(_) => (true, true),
        _ => (false, false),
    };
    let mut section: Vec<MenuRow> = Vec::new();
    if menu.show_open_menu_item {
        section.push(MenuRow::Open { enabled: menu.open_enabled, as_folder });
        if menu.show_open_in_explorer {
            section.push(MenuRow::OpenInExplorer);
        }
        if is_folder_book {
            section.push(MenuRow::MoveToFolder);
        }
    }
    assert(section@ =~= open_section(*entry, *menu));
    push_section(&mut rows, section);
    assert(rows@ =~= open_section(*entry, *menu));
    let mut section: Vec<MenuRow> = Vec::new();
    if context.can_toggle_favorite && !menu.is_multi_selection {
        section.push(MenuRow::ToggleFavorite { is_favorite: context.is_favorite });
    }
    if menu.book_target_count >= 1 {
        section.push(MenuRow::SetGroup);
    }
    assert(section@ =~= favorite_section(*menu, *context));
    push_section(&mut rows, section);
    let mut section: Vec<MenuRow> = Vec::new();
    if menu.book_settings_target_count >= 1 {
        section.push(MenuRow::ClearBookSettings);
    }
    assert(section@ =~= row_if(
        menu.book_settings_target_count >= 1,
        MenuRow::ClearBookSettings,
    ));
    push_section(&mut rows, section);
    let mut section: Vec<MenuRow> = Vec::new();
    if !menu.is_multi_selection && menu.show_rename_menu_item {
        section.push(MenuRow::Rename { enabled: menu.rename_enabled });
        if !menu.rename_enabled {
            section.push(MenuRow::RenameUnavailable);
        }
    }
    section.push(MenuRow::Copy);
    section.push(MenuRow::Delete);
    assert(section@ =~= file_section(*menu));
    push_section(&mut rows, section);
    let mut section: Vec<MenuRow> = Vec::new();
    if context.tool_count > 0 && menu.book_target_count >= 1 {
        section.push(MenuRow::ExternalTools { enabled: !context.external_tool_busy });
    }
    assert(section@ =~= row_if(
        context.tool_count > 0 && menu.book_target_count >= 1,
        MenuRow::ExternalTools { enabled: !context.external_tool_busy },
    ));
    push_section(&mut rows, section);
    rows
}

/// What a click on a row asks for; a dead row asks for nothing.
pub open spec fn actions_after(
    actions: CellContextMenuActions,
    row: MenuRow,
) -> CellContextMenuActions {
    match row {
        MenuRow::Open { enabled, .. } => CellContextMenuActions {
            open: actions.open || enabled,
            ..actions
        },
        MenuRow::OpenInExplorer => CellContextMenuActions { open_in_explorer: true, ..actions },
        MenuRow::MoveToFolder => CellContextMenuActions { move_to_folder: true, ..actions },
        MenuRow::ToggleFavorite { .. } => CellContextMenuActions {
            toggle_favorite: true,
            ..actions
        },
        MenuRow::SetGroup => CellContextMenuActions { set_group: true, ..actions },
        MenuRow::ClearBookSettings => CellContextMenuActions {
            clear_book_settings: true,
            ..actions
        },
        MenuRow::Rename { enabled } => CellContextMenuActions {
            rename: actions.rename || enabled,
            ..actions
        },
        MenuRow::Copy => CellContextMenuActions { copy: true, ..actions },
        MenuRow::Delete => CellContextMenuActions { delete: true, ..actions },
        MenuRow::Separator => actions,
        MenuRow::RenameUnavailable => actions,
        MenuRow::ExternalTools { .. } => actions,
    }
}

pub fn note_menu_click(actions: &mut CellContextMenuActions, row: MenuRow)
    ensures
        *final(actions) == actions_after(*old(actions), row),
{
    match row {
        MenuRow::Open { enabled, .. } => {
            if enabled {
                actions.open = true;
            }
        },
        MenuRow::OpenInExplorer => {
            actions.open_in_explorer = true;
        },
        MenuRow::MoveToFolder => {
            actions.move_to_folder = true;
        },
        MenuRow::ToggleFavorite { .. } => {
            actions.toggle_favorite = true;
        },
        MenuRow::SetGroup => {
            actions.set_group = true;
        },
        MenuRow::ClearBookSettings => {
            actions.clear_book_settings = true;
        },
        MenuRow::Rename { enabled } => {
            if enabled {
                actions.rename = true;
            }
        },
        MenuRow::Copy => {
            actions.copy = true;
        },
        MenuRow::Delete => {
            actions.delete = true;
        },
        MenuRow::Separator => {},
        MenuRow::RenameUnavailable => {},
        MenuRow::ExternalTools { .. } => {},
    }
}

/// Rows that neither start nor end with a separator.
pub open spec fn framed(rows: Seq<MenuRow>) -> bool {
    rows.len() > 0 ==> rows[0] != MenuRow::Separator && rows.last() != MenuRow::Separator
}

proof fn lemma_with_section(rows: Seq<MenuRow>, section: Seq<MenuRow>)
    requires
        framed(rows),
        framed(section),
    ensures
        framed(with_section(rows, section)),
        forall|row: MenuRow| rows.contains(row) || section.contains(row) ==> with_section(
            rows,
            section,
        ).contains(row),
{
    let all = with_section(rows, section);
    if rows.len() > 0 && section.len() > 0 {
        assert(all[0] == rows[0]);
        assert(all.last() == section.last());
    }
    assert forall|row: MenuRow| rows.contains(row) || section.contains(row) implies all.contains(
        row,
    ) by {
        if rows.contains(row) {
            let i = rows.index_of(row);
            assert(all[i] == row);
        } else {
            let i = section.index_of(row);
            assert(all[all.len() - section.len() + i] == row);
        }
    }
}

/// A menu neither starts nor ends with a separator, and can always copy and delete.
pub proof fn law_menus_are_well_formed(
    entry: LibraryEntry,
    menu: CellMenuState,
    context: MenuContext,
)
    ensures
        menu_rows(entry, menu, context).len() >= 2,
        framed(menu_rows(entry, menu, context)),
        menu_rows(entry, menu, context).contains(MenuRow::Copy),
        menu_rows(entry, menu, context).contains(MenuRow::Delete),
{
    let open = open_section(entry, menu);
    let favorite = favorite_section(menu, context);
    let clear = row_if(menu.book_settings_target_count >= 1, MenuRow::ClearBookSettings);
    let file = file_section(menu);
    let tools = row_if(
        context.tool_count > 0 && menu.book_target_count >= 1,
        MenuRow::ExternalTools { enabled: !context.external_tool_busy },
    );
    assert(framed(open));
    assert(framed(favorite));
    assert(file[file.len() - 2] == MenuRow::Copy && file.last() == MenuRow::Delete);
    assert(framed(file));
    assert(file.contains(MenuRow::Copy) && file.contains(MenuRow::Delete));
    let three = with_section(with_section(open, favorite), clear);
    lemma_with_section(open, favorite);
    lemma_with_section(with_section(open, favorite), clear);
    lemma_with_section(three, file);
    lemma_with_section(with_section(three, file), tools);
    let all = menu_rows(entry, menu, context);
    assert(all.contains(MenuRow::Copy) && all.contains(MenuRow::Delete));
    if all.len() == 1 {
        assert(all[0] == MenuRow::Copy && all[0] == MenuRow::Delete);
    }
}

proof fn lemma_section_contains(rows: Seq<MenuRow>, section: Seq<MenuRow>, row: MenuRow)
    requires
        row != MenuRow::Separator,
    ensures
        with_section(rows, section).contains(row) <==> rows.contains(row) || section.contains(row),
{
    let whole = with_section(rows, section);
    if rows.contains(row) {
        let i = choose|i: int| 0 <= i < rows.len() && rows[i] == row;
        assert(whole[i] == row);
    }
    if section.contains(row) {
        let i = choose|i: int| 0 <= i < section.len() && section[i] == row;
        if rows.len() > 0 {
            assert(whole[rows.len() + 1 + i] == row);
        }
    }
    if whole.contains(row) && section.len() > 0 && rows.len() > 0 {
        let i = choose|i: int| 0 <= i < whole.len() && whole[i] == row;
        if i < rows.len() {
            assert(rows[i] == row);
        } else if i > rows.len() {
            assert(section[i - rows.len() - 1] == row);
        }
    }
}

proof fn lemma_row_if(shown: bool, row: MenuRow, other: MenuRow)
    ensures
        row_if(shown, row).contains(other) <==> shown && other == row,
{
    if shown {
        assert(row_if(shown, row)[0] == row);
    }
}

proof fn lemma_rows_concat(a: Seq<MenuRow>, b: Seq<MenuRow>, row: MenuRow)
    ensures
        (a + b).contains(row) <==> a.contains(row) || b.contains(row),
{
    if a.contains(row) {
        let i = choose|i: int| 0 <= i < a.len() && a[i] == row;
        assert((a + b)[i] == row);
    }
    if b.contains(row) {
        let i = choose|i: int| 0 <= i < b.len() && b[i] == row;
        assert((a + b)[a.len() + i] == row);
    }
    if (a + b).contains(row) {
        let i = choose|i: int| 0 <= i < (a + b).len() && (a + b)[i] == row;
        if i < a.len() {
            assert(a[i] == row);
        } else {
            assert(b[i - a.len()] == row);
        }
    }
}

spec fn in_open_section(entry: LibraryEntry, menu: CellMenuState, row: MenuRow) -> bool {
    menu.show_open_menu_item && {
        ||| row == (MenuRow::Open {
            enabled: menu.open_enabled,
            as_folder: entry is Folder || entry is FolderBook,
        })
        ||| menu.show_open_in_explorer && row == MenuRow::OpenInExplorer
        ||| entry is FolderBook && row == MenuRow::MoveToFolder
    }
}

proof fn lemma_open_section(entry: LibraryEntry, menu: CellMenuState, row: MenuRow)
    ensures
        open_section(entry, menu).contains(row) <==> in_open_section(entry, menu, row),
{
    if menu.show_open_menu_item {
        let first = MenuRow::Open {
            enabled: menu.open_enabled,
            as_folder: entry is Folder || entry is FolderBook,
        };
        let explorer = row_if(menu.show_open_in_explorer, MenuRow::OpenInExplorer);
        let folder = row_if(entry is FolderBook, MenuRow::MoveToFolder);
        lemma_row_if(true, first, row);
        assert(row_if(true, first) =~= seq![first]);
        lemma_row_if(menu.show_open_in_explorer, MenuRow::OpenInExplorer, row);
        lemma_row_if(entry is FolderBook, MenuRow::MoveToFolder, row);
        lemma_rows_concat(seq![first], explorer, row);
        lemma_rows_concat(seq![first] + explorer, folder, row);
    }
}

spec fn in_favorite_section(menu: CellMenuState, context: MenuContext, row: MenuRow) -> bool {
    ||| context.can_toggle_favorite && !menu.is_multi_selection && row == (MenuRow::ToggleFavorite {
        is_favorite: context.is_favorite,
    })
    ||| menu.book_target_count >= 1 && row == MenuRow::SetGroup
}

proof fn lemma_favorite_section(menu: CellMenuState, context: MenuContext, row: MenuRow)
    ensures
        favorite_section(menu, context).contains(row) <==> in_favorite_section(menu, context, row),
{
    let toggle = MenuRow::ToggleFavorite { is_favorite: context.is_favorite };
    let may_toggle = context.can_toggle_favorite && !menu.is_multi_selection;
    lemma_row_if(may_toggle, toggle, row);
    lemma_row_if(menu.book_target_count >= 1, MenuRow::SetGroup, row);
    lemma_rows_concat(
        row_if(may_toggle, toggle),
        row_if(menu.book_target_count >= 1, MenuRow::SetGroup),
        row,
    );
}

spec fn in_file_section(menu: CellMenuState, row: MenuRow) -> bool {
    ||| !menu.is_multi_selection && menu.show_rename_menu_item && row == (MenuRow::Rename {
        enabled: menu.rename_enabled,
    })
    ||| !menu.is_multi_selection && menu.show_rename_menu_item && !menu.rename_enabled && row
        == MenuRow::RenameUnavailable
    ||| row == MenuRow::Copy
    ||| row == MenuRow::Delete
}

proof fn lemma_file_section(menu: CellMenuState, row: MenuRow)
    ensures
        file_section(menu).contains(row) <==> in_file_section(menu, row),
{
    let rename = !menu.is_multi_selection && menu.show_rename_menu_item;
    let renames = row_if(rename, MenuRow::Rename { enabled: menu.rename_enabled });
    let note = row_if(rename && !menu.rename_enabled, MenuRow::RenameUnavailable);
    let always = seq![MenuRow::Copy, MenuRow::Delete];
    lemma_row_if(rename, MenuRow::Rename { enabled: menu.rename_enabled }, row);
    lemma_row_if(rename && !menu.rename_enabled, MenuRow::RenameUnavailable, row);
    lemma_rows_concat(renames, note, row);
    lemma_rows_concat(renames + note, always, row);
    assert(always[0] == MenuRow::Copy && always[1] == MenuRow::Delete);
}

/// A row is in the menu where it is in one of its sections.
proof fn lemma_rows_by_section(
    entry: LibraryEntry,
    menu: CellMenuState,
    context: MenuContext,
    row: MenuRow,
)
    requires
        row != MenuRow::Separator,
    ensures
        menu_rows(entry, menu, context).contains(row) <==> {
            ||| in_open_section(entry, menu, row)
            ||| in_favorite_section(menu, context, row)
            ||| menu.book_settings_target_count >= 1 && row == MenuRow::ClearBookSettings
            ||| in_file_section(menu, row)
            ||| context.tool_count > 0 && menu.book_target_count >= 1 && row
                == (MenuRow::ExternalTools { enabled: !context.external_tool_busy })
        },
{
    let open = open_section(entry, menu);
    let favorite = favorite_section(menu, context);
    let settings = row_if(menu.book_settings_target_count >= 1, MenuRow::ClearBookSettings);
    let file = file_section(menu);
    let tools = row_if(
        context.tool_count > 0 && menu.book_target_count >= 1,
        MenuRow::ExternalTools { enabled: !context.external_tool_busy },
    );
    let one = with_section(open, favorite);
    let two = with_section(one, settings);
    let three = with_section(two, file);
    lemma_section_contains(open, favorite, row);
    lemma_section_contains(one, settings, row);
    lemma_section_contains(two, file, row);
    lemma_section_contains(three, tools, row);
    lemma_open_section(entry, menu, row);
    lemma_favorite_section(menu, context, row);
    lemma_file_section(menu, row);
    lemma_row_if(menu.book_settings_target_count >= 1, MenuRow::ClearBookSettings, row);
    lemma_row_if(
        context.tool_count > 0 && menu.book_target_count >= 1,
        MenuRow::ExternalTools { enabled: !context.external_tool_busy },
        row,
    );
}

/// A menu offers what can be done and nothing else: opening where it is shown, a group for books,
/// clearing where books have settings, renaming for a single entry, and tools for books.
pub proof fn law_rows_are_there_where_they_apply(
    entry: LibraryEntry,
    menu: CellMenuState,
    context: MenuContext,
)
    ensures
        ({
            let rows = menu_rows(entry, menu, context);
            let as_folder = entry is Folder || entry is FolderBook;
            &&& rows.contains(MenuRow::Open { enabled: menu.open_enabled, as_folder })
                <==> menu.show_open_menu_item
            &&& !rows.contains(MenuRow::Open { enabled: !menu.open_enabled, as_folder })
            &&& rows.contains(MenuRow::OpenInExplorer) <==> menu.show_open_menu_item
                && menu.show_open_in_explorer
            &&& rows.contains(MenuRow::MoveToFolder) <==> menu.show_open_menu_item && entry
                is FolderBook
            &&& rows.contains(MenuRow::ToggleFavorite { is_favorite: context.is_favorite })
                <==> context.can_toggle_favorite && !menu.is_multi_selection
            &&& rows.contains(MenuRow::SetGroup) <==> menu.book_target_count >= 1
            &&& rows.contains(MenuRow::ClearBookSettings) <==> menu.book_settings_target_count >= 1
            &&& rows.contains(MenuRow::Rename { enabled: menu.rename_enabled })
                <==> !menu.is_multi_selection && menu.show_rename_menu_item
            &&& rows.contains(MenuRow::RenameUnavailable) <==> !menu.is_multi_selection
                && menu.show_rename_menu_item && !menu.rename_enabled
            &&& rows.contains(MenuRow::ExternalTools { enabled: !context.external_tool_busy })
                <==> context.tool_count > 0 && menu.book_target_count >= 1
            &&& !rows.contains(MenuRow::ExternalTools { enabled: context.external_tool_busy })
        }),
{
    let as_folder = entry is Folder || entry is FolderBook;
    lemma_rows_by_section(
        entry,
        menu,
        context,
        MenuRow::Open { enabled: menu.open_enabled, as_folder },
    );
    lemma_rows_by_section(
        entry,
        menu,
        context,
        MenuRow::Open { enabled: !menu.open_enabled, as_folder },
    );
    lemma_rows_by_section(entry, menu, context, MenuRow::OpenInExplorer);
    lemma_rows_by_section(entry, menu, context, MenuRow::MoveToFolder);
    lemma_rows_by_section(
        entry,
        menu,
        context,
        MenuRow::ToggleFavorite { is_favorite: context.is_favorite },
    );
    lemma_rows_by_section(entry, menu, context, MenuRow::SetGroup);
    lemma_rows_by_section(entry, menu, context, MenuRow::ClearBookSettings);
    lemma_rows_by_section(entry, menu, context, MenuRow::Rename { enabled: menu.rename_enabled });
    lemma_rows_by_section(entry, menu, context, MenuRow::RenameUnavailable);
    lemma_rows_by_section(
        entry,
        menu,
        context,
        MenuRow::ExternalTools { enabled: !context.external_tool_busy },
    );
    lemma_rows_by_section(
        entry,
        menu,
        context,
        MenuRow::ExternalTools { enabled: context.external_tool_busy },
    );
}

/// A click asks for what its row says, and takes nothing back; dead rows ask for nothing.
pub proof fn law_rows_ask_for_what_they_say(actions: CellContextMenuActions, is_favorite: bool)
    ensures
        actions_after(actions, MenuRow::Open { enabled: true, as_folder: false }).open,
        actions_after(actions, MenuRow::Open { enabled: false, as_folder: false }) == actions,
        actions_after(actions, MenuRow::OpenInExplorer).open_in_explorer,
        actions_after(actions, MenuRow::MoveToFolder).move_to_folder,
        actions_after(actions, MenuRow::ToggleFavorite { is_favorite }).toggle_favorite,
        actions_after(actions, MenuRow::SetGroup).set_group,
        actions_after(actions, MenuRow::ClearBookSettings).clear_book_settings,
        actions_after(actions, MenuRow::Rename { enabled: true }).rename,
        actions_after(actions, MenuRow::Rename { enabled: false }) == actions,
        actions_after(actions, MenuRow::Copy).copy,
        actions_after(actions, MenuRow::Delete).delete,
        actions_after(actions, MenuRow::Copy).delete == actions.delete,
        actions_after(actions, MenuRow::Delete).copy == actions.copy,
        actions_after(actions, MenuRow::Separator) == actions,
        actions_after(actions, MenuRow::RenameUnavailable) == actions,
{
}

} // verus!
