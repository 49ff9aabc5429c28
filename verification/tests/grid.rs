use std::collections::{HashMap, HashSet};

use cbz_viewer::grid::badges::{
    badge_text_lines, reading_hud_label, thumb_hud_badge, ReadingHudState, ThumbHudBadge,
};
use cbz_viewer::grid::cells::{
    build_cell_action, context_action_from_cell_action, CellAction, CellClickState,
    CellContextMenuActions, ContextAction, GridFrame, GridViewContext,
};
use cbz_viewer::grid::context_menu::{build_context_menu, note_menu_click, MenuContext, MenuRow};
use cbz_viewer::grid::entries::{
    entry_title, is_entry_openable, thumb_cell_state, ArchiveEntry, BookViewState, FolderEntry,
    LibraryEntry, ThumbCellState,
};
use cbz_viewer::grid::filename_tokens::{
    build_filename_segments, can_apply_token, default_selected_token_index, name_to_take_apart,
    selected_token_index, split_extension, FilenamePart, FilenamePartRole, FilenameSegment, SelectableToken,
};
use cbz_viewer::grid::palettes::{
    card_selection_palette, cell_frame, hud_overlay_palette, CellFrame, HudColor,
    LibraryCardSelectionStyle, LibraryHudStyle,
};
use cbz_viewer::grid::selection::{
    build_grid_layout, collect_context_targets, count_selected, opened_by_keys, row_to_follow,
    select_by_keys, takes_keys, GridNavInput, KeyboardSelection, MultiClick,
};
use cbz_viewer::viewer::texture_entries::TextureRef;

fn archive(id: u64, title: &str) -> LibraryEntry {
    LibraryEntry::Archive(ArchiveEntry {
        id,
        path: format!("/books/{}.cbz", title),
        title: title.to_string(),
        size: 1536,
    })
}

fn folder(title: &str) -> FolderEntry {
    FolderEntry {
        thumb_id: Some(50),
        title: title.to_string(),
    }
}

fn picture() -> TextureRef {
    TextureRef {
        id: 3,
        width: 10,
        height: 10,
    }
}

fn states() -> HashMap<u64, BookViewState> {
    let mut states = HashMap::new();
    states.insert(
        1,
        BookViewState {
            texture: Some(picture()),
            thumb_failed: false,
        },
    );
    states.insert(
        2,
        BookViewState {
            texture: None,
            thumb_failed: true,
        },
    );
    states
}

fn entries() -> Vec<LibraryEntry> {
    vec![
        archive(1, "a"),
        archive(2, "b"),
        archive(3, "c"),
        LibraryEntry::Folder(folder("d")),
        LibraryEntry::FolderBook(folder("e")),
        LibraryEntry::ImageFile(folder("f")),
    ]
}

fn selected(members: &[usize]) -> HashSet<usize> {
    members.iter().copied().collect()
}

fn keys() -> GridNavInput {
    GridNavInput {
        left: false,
        right: false,
        up: false,
        down: false,
        pgup: false,
        pgdn: false,
        home: false,
        end: false,
        enter: false,
        shift: false,
    }
}

#[test]
fn cells_show_what_is_known_of_a_picture() {
    let found: Vec<ThumbCellState> = entries()
        .iter()
        .map(|entry| thumb_cell_state(entry, &states()))
        .collect();
    assert_eq!(
        found,
        vec![
            ThumbCellState::Ready(picture()),
            ThumbCellState::Failed,
            ThumbCellState::Loading,
            ThumbCellState::Folder,
            ThumbCellState::Loading,
            ThumbCellState::Loading,
        ]
    );
    let openable: Vec<bool> = (0..7)
        .map(|idx| is_entry_openable(&entries(), &states(), idx))
        .collect();
    assert_eq!(openable, vec![true, false, false, true, true, true, false]);
    assert_eq!(entry_title(&entries()[4]), "e");
}

#[test]
fn grids_have_a_row_for_the_rest() {
    assert_eq!(build_grid_layout(10, 4, 2).rows, 3);
    assert_eq!(build_grid_layout(8, 4, 2).rows, 2);
    assert_eq!(build_grid_layout(0, 4, 2).rows, 0);
}

#[test]
fn keys_move_within_the_grid() {
    let layout = build_grid_layout(10, 4, 2);
    let go = |input: GridNavInput, from: usize| {
        select_by_keys(&input, Some(from), 10, &layout).map(|selection| selection.idx())
    };
    assert_eq!(go(GridNavInput { right: true, ..keys() }, 9), Some(9));
    assert_eq!(go(GridNavInput { left: true, ..keys() }, 0), Some(0));
    assert_eq!(go(GridNavInput { down: true, ..keys() }, 3), Some(7));
    assert_eq!(go(GridNavInput { down: true, ..keys() }, 7), Some(9));
    assert_eq!(go(GridNavInput { up: true, ..keys() }, 7), Some(3));
    assert_eq!(go(GridNavInput { up: true, ..keys() }, 2), Some(0));
    assert_eq!(go(GridNavInput { pgdn: true, ..keys() }, 1), Some(9));
    assert_eq!(go(GridNavInput { pgup: true, ..keys() }, 9), Some(1));
    assert_eq!(go(GridNavInput { end: true, ..keys() }, 2), Some(9));
    assert_eq!(go(GridNavInput { home: true, ..keys() }, 2), Some(0));
    assert_eq!(go(GridNavInput { right: true, left: true, ..keys() }, 2), Some(3));
    assert_eq!(go(keys(), 2), None);
    let shifted = GridNavInput { right: true, shift: true, ..keys() };
    assert_eq!(
        select_by_keys(&shifted, None, 10, &layout),
        Some(KeyboardSelection::Shift(1))
    );
    assert_eq!(select_by_keys(&shifted, None, 0, &layout), None);
    assert_eq!(row_to_follow(Some(KeyboardSelection::Plain(9)), &layout), Some(2));
    assert_eq!(row_to_follow(None, &layout), None);
}

#[test]
fn enter_opens_what_can_be_opened() {
    let enter = GridNavInput { enter: true, ..keys() };
    let open = |key, selected| opened_by_keys(&enter, key, selected, &entries(), &states());
    assert_eq!(open(None, Some(0)), Some(0));
    assert_eq!(open(None, Some(1)), None);
    assert_eq!(open(Some(KeyboardSelection::Plain(3)), Some(1)), Some(3));
    assert_eq!(open(None, None), None);
    assert_eq!(opened_by_keys(&keys(), None, Some(0), &entries(), &states()), None);
    assert!(takes_keys(true, false, true, false));
    assert!(!takes_keys(true, true, true, false));
}

#[test]
fn targets_are_in_order() {
    assert_eq!(collect_context_targets(Some(3), &selected(&[1, 5])), vec![1, 3, 5]);
    assert_eq!(collect_context_targets(Some(5), &selected(&[1, 5])), vec![1, 5]);
    assert_eq!(collect_context_targets(Some(0), &selected(&[])), vec![0]);
    assert_eq!(collect_context_targets(None, &selected(&[])), Vec::<usize>::new());
    assert_eq!(count_selected(Some(3), &selected(&[1, 5])), 3);
    assert_eq!(count_selected(Some(5), &selected(&[1, 5])), 2);
    assert_eq!(count_selected(None, &selected(&[1, 5])), 2);
}

#[test]
fn a_menu_for_several_entries() {
    let all = entries();
    let known = states();
    let set = selected(&[4, 0, 1]);
    let context = GridViewContext {
        entries: &all,
        book_states: &known,
        selected_idx: Some(0),
        selected_set: &set,
        interaction_enabled: true,
    };
    let menu = context.build_cell_menu_state(0, "{} items");
    assert_eq!((menu.book_target_count, menu.book_settings_target_count), (2, 3));
    assert!(menu.is_multi_selection);
    assert!(!menu.open_enabled && !menu.rename_enabled && !menu.show_token_menu_frame);
    assert!(menu.can_start_external_drag);
    assert!(menu.show_context_header);
    assert_eq!(menu.context_header, "3 items");
    // A cell outside the selection speaks for itself alone.
    let menu = context.build_cell_menu_state(2, "{} items");
    assert_eq!((menu.book_target_count, menu.book_settings_target_count), (1, 1));
    assert!(menu.rename_enabled);
    assert!(!menu.show_context_header);
    assert_eq!(menu.context_header, "");
}

#[test]
fn a_menu_for_one_book() {
    let all = entries();
    let known = states();
    let set = selected(&[0]);
    let context = GridViewContext {
        entries: &all,
        book_states: &known,
        selected_idx: Some(0),
        selected_set: &set,
        interaction_enabled: true,
    };
    let menu = context.build_cell_menu_state(0, "{}");
    let rows = build_context_menu(
        &all[0],
        &menu,
        &MenuContext {
            can_toggle_favorite: true,
            is_favorite: false,
            tool_count: 1,
            external_tool_busy: true,
        },
    );
    assert_eq!(
        rows,
        vec![
            MenuRow::Open { enabled: true, as_folder: false },
            MenuRow::OpenInExplorer,
            MenuRow::Separator,
            MenuRow::ToggleFavorite { is_favorite: false },
            MenuRow::SetGroup,
            MenuRow::Separator,
            MenuRow::ClearBookSettings,
            MenuRow::Separator,
            MenuRow::Rename { enabled: true },
            MenuRow::Copy,
            MenuRow::Delete,
            MenuRow::Separator,
            MenuRow::ExternalTools { enabled: false },
        ]
    );
}

#[test]
fn menus_neither_start_nor_end_with_a_separator() {
    let all = entries();
    let known = states();
    for members in [vec![], vec![3], vec![3, 5], vec![0, 4]] {
        let set = selected(&members);
        let context = GridViewContext {
            entries: &all,
            book_states: &known,
            selected_idx: members.first().copied(),
            selected_set: &set,
            interaction_enabled: true,
        };
        for idx in 0..all.len() {
            let menu = context.build_cell_menu_state(idx, "{}");
            let rows = build_context_menu(
                &all[idx],
                &menu,
                &MenuContext {
                    can_toggle_favorite: false,
                    is_favorite: false,
                    tool_count: 0,
                    external_tool_busy: false,
                },
            );
            assert_ne!(rows.first(), Some(&MenuRow::Separator));
            assert_ne!(rows.last(), Some(&MenuRow::Separator));
            assert!(rows.contains(&MenuRow::Copy) && rows.contains(&MenuRow::Delete));
        }
    }
}

fn no_menu() -> CellContextMenuActions {
    CellContextMenuActions {
        open: false,
        move_to_folder: false,
        rename: false,
        delete: false,
        copy: false,
        open_in_explorer: false,
        toggle_favorite: false,
        set_group: false,
        clear_book_settings: false,
        external_tool: None,
        filter_token: None,
    }
}

fn click() -> CellClickState {
    CellClickState {
        ctrl: false,
        shift: false,
        clicked: true,
        double_click: false,
        drag_started: false,
    }
}

fn act(click: CellClickState, menu: CellContextMenuActions) -> CellAction {
    build_cell_action(
        &archive(1, "a"),
        ThumbCellState::Ready(picture()),
        true,
        click,
        menu,
        false,
        false,
    )
}

#[test]
fn clicks_are_told_apart() {
    assert!(act(click(), no_menu()).plain_click);
    assert!(act(CellClickState { ctrl: true, ..click() }, no_menu()).ctrl_click);
    assert!(act(CellClickState { shift: true, ..click() }, no_menu()).shift_click);
    let double = act(CellClickState { double_click: true, ..click() }, no_menu());
    assert!(double.double_click && !double.plain_click);
    let unready = build_cell_action(
        &LibraryEntry::ImageFile(folder("f")),
        ThumbCellState::Loading,
        false,
        CellClickState { double_click: true, drag_started: true, ..click() },
        no_menu(),
        false,
        false,
    );
    assert!(!unready.double_click && !unready.drag_started);
}

#[test]
fn a_click_on_a_row_asks_for_it() {
    let mut menu = no_menu();
    note_menu_click(&mut menu, MenuRow::Separator);
    note_menu_click(&mut menu, MenuRow::Open { enabled: false, as_folder: false });
    assert!(!menu.open);
    note_menu_click(&mut menu, MenuRow::Delete);
    note_menu_click(&mut menu, MenuRow::Copy);
    let action = act(click(), menu);
    assert!(matches!(
        context_action_from_cell_action(4, &action),
        Some((4, ContextAction::Delete))
    ));
    assert!(context_action_from_cell_action(4, &act(click(), no_menu())).is_none());
}

#[test]
fn the_first_menu_and_the_latest_click_count() {
    let mut frame = GridFrame::new();
    let mut menu = no_menu();
    menu.external_tool = Some(2);
    frame.note_cell(0, &act(click(), menu));
    let mut menu = no_menu();
    menu.filter_token = Some("x".to_string());
    frame.note_cell(1, &act(CellClickState { ctrl: true, shift: true, ..click() }, menu));
    frame.note_cell(2, &act(click(), no_menu()));
    let result = frame.assemble_grid_result(Some(KeyboardSelection::Plain(9)), Some(8));
    assert_eq!(result.selected, Some(KeyboardSelection::Plain(2)));
    assert_eq!(result.multi_select, Some(MultiClick::Ctrl(1)));
    assert_eq!(result.opened, Some(8));
    assert!(matches!(
        result.context_action,
        Some((0, ContextAction::RunExternalTool(2)))
    ));
    assert!(!result.context_menu_open);
}

#[test]
fn badges_name_the_kind_and_size() {
    let badge = thumb_hud_badge(&archive(1, "a")).expect("archives have a badge");
    assert_eq!(badge_text_lines(badge), vec!["2KB", "CBZ"]);
    assert_eq!(badge_text_lines(ThumbHudBadge::FolderBook), vec!["DIR"]);
    assert_eq!(badge_text_lines(ThumbHudBadge::ImageFile), vec!["IMAGE"]);
    assert!(thumb_hud_badge(&LibraryEntry::Folder(folder("d"))).is_none());
    let unnamed = LibraryEntry::Archive(ArchiveEntry {
        id: 1,
        path: "/books/none".to_string(),
        title: String::new(),
        size: 0,
    });
    let badge = thumb_hud_badge(&unnamed).expect("archives have a badge");
    assert_eq!(badge_text_lines(badge), vec!["1KB", "ARC"]);
}

#[test]
fn badges_tell_how_far_a_book_is_read() {
    let label = |state| reading_hud_label(state, "reading", "read");
    assert_eq!(label(ReadingHudState::Unread), None);
    assert_eq!(label(ReadingHudState::Reading), Some("reading".to_string()));
    assert_eq!(label(ReadingHudState::ReadingPercent(42)), Some("42%".to_string()));
    assert_eq!(label(ReadingHudState::Read), Some("read".to_string()));
}

fn part(role: FilenamePartRole, text: &str) -> FilenamePart {
    FilenamePart {
        role,
        text: text.to_string(),
    }
}

fn shown(segments: &[FilenameSegment]) -> String {
    segments
        .iter()
        .map(|segment| match segment {
            FilenameSegment::Text(text) => text.clone(),
            FilenameSegment::Token { token_idx, text } => format!("<{}:{}>", token_idx, text),
        })
        .collect()
}

#[test]
fn file_names_are_taken_apart() {
    let parts = vec![
        part(FilenamePartRole::Kind, "kind"),
        part(FilenamePartRole::Author, "author"),
        part(FilenamePartRole::AuthorAlias, "alias"),
        part(FilenamePartRole::Title, "title"),
        part(FilenamePartRole::Work, "work"),
        part(FilenamePartRole::Edition, "edition"),
        part(FilenamePartRole::Extra, "extra"),
    ];
    let (segments, tokens) = build_filename_segments(&parts, Some(".cbz"));
    assert_eq!(
        shown(&segments),
        "(<0:kind>) [<1:author> (<2:alias>)] <3:title> (<4:work>) [<5:edition>] <6:extra>.cbz"
    );
    assert_eq!(tokens.len(), 7);
    assert_eq!(tokens[4].text, "work");
    assert_eq!(default_selected_token_index(&tokens), 1);
    assert_eq!(selected_token_index(&tokens, Some(3)), 3);
    assert_eq!(selected_token_index(&tokens, Some(30)), 1);
    assert_eq!(selected_token_index(&tokens, None), 1);
    let (segments, tokens) = build_filename_segments(&Vec::new(), None);
    assert!(segments.is_empty() && tokens.is_empty());
    assert_eq!(default_selected_token_index(&tokens), 0);
}

#[test]
fn blank_tokens_cannot_be_applied() {
    let token = |text: &str| SelectableToken {
        role: FilenamePartRole::Title,
        text: text.to_string(),
    };
    assert!(can_apply_token(&token("a")));
    assert!(!can_apply_token(&token(" ")));
}

#[test]
fn extensions_are_split_at_the_last_dot() {
    assert_eq!(split_extension("a.b.cbz"), Some(".cbz".to_string()));
    assert_eq!(split_extension("abc"), None);
    assert_eq!(split_extension(".cbz"), None);
    assert_eq!(split_extension("a.b/c"), None);
    assert_eq!(split_extension("a.b\\c.d"), Some(".d".to_string()));
}

#[test]
fn palettes() {
    assert_eq!(card_selection_palette(LibraryCardSelectionStyle::Amber), (198, 142, 57));
    assert_eq!(
        cell_frame(LibraryCardSelectionStyle::Default, true, true),
        CellFrame::Selected(40, 84, 222)
    );
    assert_eq!(
        cell_frame(LibraryCardSelectionStyle::Default, false, true),
        CellFrame::Hovered
    );
    assert_eq!(
        cell_frame(LibraryCardSelectionStyle::Default, false, false),
        CellFrame::Nothing
    );
    let plain = hud_overlay_palette(
        LibraryHudStyle::White,
        false,
        LibraryCardSelectionStyle::Rose,
        200,
    );
    assert_eq!(plain.background, HudColor::Rgba(255, 255, 255, 214));
    assert_eq!(plain.foreground, HudColor::Rgba(28, 28, 28, 255));
    let selected = hud_overlay_palette(
        LibraryHudStyle::White,
        true,
        LibraryCardSelectionStyle::Rose,
        200,
    );
    assert_eq!(selected.background, HudColor::Rgba(194, 103, 131, 200));
}

#[test]
fn names_are_taken_from_the_path() {
    assert_eq!(
        name_to_take_apart("/books/[x] y.cbz", "title"),
        Some("[x] y.cbz".to_string())
    );
    assert_eq!(name_to_take_apart("/books/..", "title"), Some("title".to_string()));
    assert_eq!(name_to_take_apart("/books/..", " "), None);
    assert_eq!(name_to_take_apart("/books/ ", "title"), None);
}
