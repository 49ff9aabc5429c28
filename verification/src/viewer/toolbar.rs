//! The toolbar: what its controls show, which of them are live, and what a click on one means.
use vstd::prelude::*;
use vstd::string::*;

use super::frame::{ExternalToolToolbarState, ViewerUiCapabilities};
use super::frame_end::{no_events, ToolbarEvents};
use super::state::{ViewerModel, ViewerState};
use crate::domain::{ReadingDirection, SpreadMode, ViewerQuality};
use crate::util::path_text::{
    alike, may_be_named, path_file_name, same_path, text_of, told_apart,
};

verus! {

#[derive(Clone, Copy, Debug, PartialEq, Eq, Structural)]
pub enum ViewerFavoriteState {
    Unknown,
    On,
    Off,
}

/// What the favourites button says when pointed at.
#[derive(Clone, Copy, Debug, PartialEq, Eq, Structural)]
pub enum FavoriteHint {
    Updating,
    Checking,
    Remove,
    Add,
}

/// A key of the keyboard, as far as it matters here.
#[derive(Clone, Copy, Debug, PartialEq, Eq, Structural)]
pub enum ViewerKey {
    ArrowLeft,
    ArrowRight,
    ArrowUp,
    ArrowDown,
    PageUp,
    PageDown,
    Home,
    End,
    Delete,
    Space,
    Escape,
    F11,
    A,
    D,
    W,
    S,
    /// Any other key, by a number of the caller's.
    Other(u32),
}

pub struct ExternalToolButtonModel {
    pub tool_index: usize,
    pub name: String,
    pub shortcut: char,
    pub key: ViewerKey,
}

#[derive(Clone, Copy, Debug, PartialEq, Eq, Structural)]
pub enum ExternalToolButtonState {
    Idle,
    Running,
    Success,
    Failed,
}

#[derive(Clone, Copy, Debug, PartialEq, Eq, Structural)]
pub struct FavoriteButton {
    pub enabled: bool,
    pub filled_star: bool,
    pub hint: FavoriteHint,
}

/// The choice of the reading direction: the default, or the other one.
#[derive(Clone, Copy, Debug, PartialEq, Eq, Structural)]
pub struct DirectionChoice {
    pub default_direction: ReadingDirection,
    pub other_direction: ReadingDirection,
    pub default_selected: bool,
    pub other_selected: bool,
}

/// The controls of the toolbar, without the external tools and the title.
#[derive(Clone, Copy, Debug, PartialEq, Eq, Structural)]
pub struct ViewerToolbarModel {
    pub favorite: FavoriteButton,
    pub spread: SpreadMode,
    pub direction: DirectionChoice,
    pub cover_blank: bool,
    pub cover_blank_enabled: bool,
    pub quality_override: Option<ViewerQuality>,
    pub slideshow_active: bool,
    pub slideshow_interval: u64,
    pub delete_shown: bool,
    /// Whether the external tools are live: none of them runs.
    pub tools_enabled: bool,
    /// Whether the controls that are always there are live.
    pub enabled: bool,
}

/// A click on a control.
#[derive(Clone, Copy, Debug, PartialEq, Eq, Structural)]
pub enum ToolbarClick {
    Favorite,
    Spread,
    DefaultDirection,
    OtherDirection,
    CoverBlank,
    Quality(Option<ViewerQuality>),
    Slideshow,
    Interval(u64),
    ExternalTool(usize),
    Fullscreen,
    Delete,
}

pub open spec fn opposite(direction: ReadingDirection) -> ReadingDirection {
    match direction {
        ReadingDirection::RightToLeft => ReadingDirection::LeftToRight,
        ReadingDirection::LeftToRight => ReadingDirection::RightToLeft,
    }
}

pub fn opposite_reading_direction(direction: ReadingDirection) -> (other: ReadingDirection)
    ensures
        other == opposite(direction),
{
    match direction {
        ReadingDirection::RightToLeft => ReadingDirection::LeftToRight,
        ReadingDirection::LeftToRight => ReadingDirection::RightToLeft,
    }
}

/// The favourites button: dead while its state is not known, or an update is under way.
pub open spec fn favorite_button(
    state: ViewerFavoriteState,
    pending: bool,
    allowed: bool,
    blocked: bool,
) -> FavoriteButton {
    FavoriteButton {
        enabled: allowed && !blocked && !pending && state != ViewerFavoriteState::Unknown,
        filled_star: state == ViewerFavoriteState::On,
        hint: if pending {
            FavoriteHint::Updating
        } else {
            match state {
                ViewerFavoriteState::Unknown => FavoriteHint::Checking,
                ViewerFavoriteState::On => FavoriteHint::Remove,
                ViewerFavoriteState::Off => FavoriteHint::Add,
            }
        },
    }
}

pub fn favorite_button_and_hover(
    state: ViewerFavoriteState,
    pending: bool,
    allowed: bool,
    blocked: bool,
) -> (button: FavoriteButton)
    ensures
        button == favorite_button(state, pending, allowed, blocked),
{
    let hint: FavoriteHint = if pending {
        FavoriteHint::Updating
    } else {
        match state {
            ViewerFavoriteState::Unknown => FavoriteHint::Checking,
            ViewerFavoriteState::On => FavoriteHint::Remove,
            ViewerFavoriteState::Off => FavoriteHint::Add,
        }
    };
    FavoriteButton {
        enabled: allowed && !blocked && !pending && state != ViewerFavoriteState::Unknown,
        filled_star: state == ViewerFavoriteState::On,
        hint,
    }
}

/// Keys that the viewer uses itself.
pub open spec fn reserved(key: ViewerKey) -> bool {
    !(key is Other)
}

pub fn is_reserved_viewer_key(key: ViewerKey) -> (is_reserved: bool)
    ensures
        is_reserved == reserved(key),
{
    match key {
        ViewerKey::Other(_) => false,
        _ => true,
    }
}

/// Whether the tool at `i` can be called by its key: the viewer does not use the key itself, and
/// no tool before it has the same.
pub open spec fn has_shortcut(tools: Seq<ExternalToolButtonModel>, i: int) -> bool {
    &&& 0 <= i < tools.len()
    &&& !reserved(tools[i].key)
    &&& forall|j: int| 0 <= j < i ==> (#[trigger] tools[j]).key != tools[i].key
}

/// The tool that is called: the first that can be and whose key is pressed.
pub open spec fn is_called(tools: Seq<ExternalToolButtonModel>, pressed: Seq<bool>, i: int) -> bool {
    &&& has_shortcut(tools, i)
    &&& pressed[i]
    &&& forall|j: int| 0 <= j < i && #[trigger] has_shortcut(tools, j) ==> !pressed[j]
}

fn key_seen_before(tools: &Vec<ExternalToolButtonModel>, i: usize) -> (seen: bool)
    requires
        i < tools@.len(),
    ensures
        seen == exists|j: int| 0 <= j < i && (#[trigger] tools@[j]).key == tools@[i as int].key,
{
    let mut j: usize = 0;
    while j < i
        invariant
            j <= i < tools@.len(),
            forall|k: int| 0 <= k < j ==> (#[trigger] tools@[k]).key != tools@[i as int].key,
        decreases i - j,
    {
        if tools[j].key == tools[i].key {
            assert(tools@[j as int].key == tools@[i as int].key);
            return true;
        }
        j = j + 1;
    }
    false
}

/// The tool that is called by its key, by its place among the tools; `pressed` tells for each
/// tool whether its key is pressed.
pub fn called_tool(tools: &Vec<ExternalToolButtonModel>, pressed: &Vec<bool>) -> (called: Option<
    usize,
>)
    requires
        tools@.len() == pressed@.len(),
    ensures
        called matches Some(i) ==> is_called(tools@, pressed@, i as int),
        called is None ==> forall|i: int| !#[trigger] is_called(tools@, pressed@, i),
{
    let mut i: usize = 0;
    while i < tools.len()
        invariant
            i <= tools@.len() == pressed@.len(),
            forall|j: int| 0 <= j < i && #[trigger] has_shortcut(tools@, j) ==> !pressed@[j],
        decreases tools@.len() - i,
    {
        if !key_seen_before(tools, i) && !is_reserved_viewer_key(tools[i].key) {
            assert(has_shortcut(tools@, i as int));
            if pressed[i] {
                return Some(i);
            }
        }
        i = i + 1;
    }
    None
}

impl ViewerModel {
    pub open spec fn toolbar(
        self,
        favorite_state: ViewerFavoriteState,
        favorite_pending: bool,
        blocked: bool,
        tool_running: bool,
        capabilities: ViewerUiCapabilities,
    ) -> ViewerToolbarModel {
        let default_direction = self.persistent.global_reading_direction;
        let chosen = self.persistent.reading_direction_override;
        ViewerToolbarModel {
            favorite: favorite_button(
                favorite_state,
                favorite_pending,
                capabilities.allow_favorite_toggle,
                blocked,
            ),
            spread: self.persistent.spread_setting,
            direction: DirectionChoice {
                default_direction,
                other_direction: opposite(default_direction),
                default_selected: chosen is None || chosen == Some(default_direction),
                other_selected: chosen == Some(opposite(default_direction)),
            },
            cover_blank: self.persistent.cover_blank,
            cover_blank_enabled: self.persistent.spread_setting != SpreadMode::Single && !blocked,
            quality_override: self.persistent.quality_override,
            slideshow_active: self.playback.slideshow_active,
            slideshow_interval: self.playback.slideshow_interval,
            delete_shown: capabilities.allow_delete,
            tools_enabled: !(blocked || tool_running),
            enabled: !blocked,
        }
    }
}

/// What the choice of the direction says: the default with its direction in brackets, or the
/// other direction.
pub open spec fn direction_text(
    choice: DirectionChoice,
    default_word: Seq<char>,
    default_label: Seq<char>,
    other_label: Seq<char>,
) -> Seq<char> {
    if choice.default_selected {
        default_word + "（"@ + default_label + "）"@
    } else {
        other_label
    }
}

pub fn reading_direction_selected_label(
    choice: &DirectionChoice,
    default_word: &str,
    default_label: &str,
    other_label: &str,
) -> (label: String)
    ensures
        label@ == direction_text(*choice, default_word@, default_label@, other_label@),
{
    if choice.default_selected {
        let mut label: String = default_word.to_owned();
        label.append("（");
        label.append(default_label);
        label.append("）");
        label
    } else {
        other_label.to_owned()
    }
}

/// What the blank-page button says: ticked while the page is in.
pub fn cover_blank_label(word: &str, cover_blank: bool) -> (label: String)
    ensures
        label@ == if cover_blank {
            word@ + " ✓"@
        } else {
            word@
        },
{
    let mut label: String = word.to_owned();
    if cover_blank {
        label.append(" ✓");
    }
    label
}

/// Whether a click on a control counts. The interval can be chosen at any time.
pub open spec fn is_live(toolbar: ViewerToolbarModel, click: ToolbarClick) -> bool {
    match click {
        ToolbarClick::Favorite => toolbar.favorite.enabled,
        ToolbarClick::CoverBlank => toolbar.cover_blank_enabled,
        ToolbarClick::Interval(_) => true,
        ToolbarClick::ExternalTool(_) => toolbar.tools_enabled,
        ToolbarClick::Delete => toolbar.delete_shown && toolbar.enabled,
        _ => toolbar.enabled,
    }
}

pub fn is_live_control(toolbar: &ViewerToolbarModel, click: ToolbarClick) -> (live: bool)
    ensures
        live == is_live(*toolbar, click),
{
    match click {
        ToolbarClick::Favorite => toolbar.favorite.enabled,
        ToolbarClick::CoverBlank => toolbar.cover_blank_enabled,
        ToolbarClick::Interval(_) => true,
        ToolbarClick::ExternalTool(_) => toolbar.tools_enabled,
        ToolbarClick::Delete => toolbar.delete_shown && toolbar.enabled,
        _ => toolbar.enabled,
    }
}

/// What a click means. One on a dead control means nothing.
pub open spec fn events_after(
    events: ToolbarEvents,
    toolbar: ViewerToolbarModel,
    click: ToolbarClick,
) -> ToolbarEvents {
    if !is_live(toolbar, click) {
        events
    } else {
        match click {
            ToolbarClick::Favorite => ToolbarEvents { toggle_favorite: true, ..events },
            ToolbarClick::Spread => ToolbarEvents { toggle_spread: true, ..events },
            ToolbarClick::DefaultDirection => ToolbarEvents {
                reading_direction_override_change: Some(None),
                ..events
            },
            ToolbarClick::OtherDirection => ToolbarEvents {
                reading_direction_override_change: Some(Some(toolbar.direction.other_direction)),
                ..events
            },
            ToolbarClick::CoverBlank => ToolbarEvents { toggle_cover_blank: true, ..events },
            ToolbarClick::Quality(quality) => ToolbarEvents {
                quality_override_change: Some(quality),
                ..events
            },
            ToolbarClick::Slideshow => ToolbarEvents { toggle_slideshow: true, ..events },
            ToolbarClick::Interval(interval) => ToolbarEvents {
                interval_change: Some(interval),
                ..events
            },
            ToolbarClick::ExternalTool(tool_index) => ToolbarEvents {
                external_tool_click: Some(tool_index),
                ..events
            },
            ToolbarClick::Fullscreen => ToolbarEvents { toggle_fullscreen: true, ..events },
            ToolbarClick::Delete => ToolbarEvents { delete: true, ..events },
        }
    }
}

/// Notes a click.
pub fn note_toolbar_click(
    events: &mut ToolbarEvents,
    toolbar: &ViewerToolbarModel,
    click: ToolbarClick,
)
    ensures
        *final(events) == events_after(*old(events), *toolbar, click),
{
    if !is_live_control(toolbar, click) {
        return;
    }
    match click {
        ToolbarClick::Favorite => {
            events.toggle_favorite = true;
        },
        ToolbarClick::Spread => {
            events.toggle_spread = true;
        },
        ToolbarClick::DefaultDirection => {
            events.reading_direction_override_change = Some(None);
        },
        ToolbarClick::OtherDirection => {
            events.reading_direction_override_change = Some(
                Some(toolbar.direction.other_direction),
            );
        },
        ToolbarClick::CoverBlank => {
            events.toggle_cover_blank = true;
        },
        ToolbarClick::Quality(quality) => {
            events.quality_override_change = Some(quality);
        },
        ToolbarClick::Slideshow => {
            events.toggle_slideshow = true;
        },
        ToolbarClick::Interval(interval) => {
            events.interval_change = Some(interval);
        },
        ToolbarClick::ExternalTool(tool_index) => {
            events.external_tool_click = Some(tool_index);
        },
        ToolbarClick::Fullscreen => {
            events.toggle_fullscreen = true;
        },
        ToolbarClick::Delete => {
            events.delete = true;
        },
    }
}

/// What the clicks of a frame mean, one after the other.
pub open spec fn events_after_all(
    events: ToolbarEvents,
    toolbar: ViewerToolbarModel,
    clicks: Seq<ToolbarClick>,
) -> ToolbarEvents
    decreases clicks.len(),
{
    if clicks.len() == 0 {
        events
    } else {
        events_after(
            events_after_all(events, toolbar, clicks.drop_last()),
            toolbar,
            clicks.last(),
        )
    }
}

/// The toolbar keeps its rules, whatever is clicked: while input is blocked nothing but the
/// interval changes; deletion and favourites need leave, and favourites a known state and no
/// update under way; the blank page needs pairing; and no tool is called while one runs.
pub proof fn law_toolbar_keeps_its_rules(
    model: ViewerModel,
    favorite_state: ViewerFavoriteState,
    favorite_pending: bool,
    blocked: bool,
    tool_running: bool,
    capabilities: ViewerUiCapabilities,
    clicks: Seq<ToolbarClick>,
)
    ensures
        ({
            let toolbar = model.toolbar(
                favorite_state,
                favorite_pending,
                blocked,
                tool_running,
                capabilities,
            );
            let events = events_after_all(no_events(), toolbar, clicks);
            &&& blocked ==> events == (ToolbarEvents {
                interval_change: events.interval_change,
                ..no_events()
            })
            &&& events.delete ==> capabilities.allow_delete
            &&& events.toggle_favorite ==> capabilities.allow_favorite_toggle && !favorite_pending
                && favorite_state != ViewerFavoriteState::Unknown
            &&& events.toggle_cover_blank ==> model.persistent.spread_setting != SpreadMode::Single
            &&& events.external_tool_click is Some ==> !tool_running
            &&& events.external_tool_shortcut is None
        }),
    decreases clicks.len(),
{
    if clicks.len() > 0 {
        law_toolbar_keeps_its_rules(
            model,
            favorite_state,
            favorite_pending,
            blocked,
            tool_running,
            capabilities,
            clicks.drop_last(),
        );
    }
}

/// How the button of a tool looks; `here` tells whether the last run was on this book.
pub open spec fn tool_button(state: ExternalToolToolbarState, tool_index: usize, here: bool) ->
    ExternalToolButtonState {
    match state {
        ExternalToolToolbarState::Idle => ExternalToolButtonState::Idle,
        ExternalToolToolbarState::Running { .. } => ExternalToolButtonState::Running,
        ExternalToolToolbarState::Success { tool_index: last, .. } => if last == tool_index
            && here {
            ExternalToolButtonState::Success
        } else {
            ExternalToolButtonState::Idle
        },
        ExternalToolToolbarState::Failed { tool_index: last, .. } => if last == tool_index && here {
            ExternalToolButtonState::Failed
        } else {
            ExternalToolButtonState::Idle
        },
    }
}

/// The path that the state of the tools speaks of.
pub open spec fn tool_path(state: ExternalToolToolbarState) -> Seq<char> {
    match state {
        ExternalToolToolbarState::Idle => Seq::empty(),
        ExternalToolToolbarState::Running { path, .. } => path@,
        ExternalToolToolbarState::Success { path, .. } => path@,
        ExternalToolToolbarState::Failed { path, .. } => path@,
    }
}

/// How the button of a tool looks, given whether the last run was on this book.
pub fn tool_button_state(state: &ExternalToolToolbarState, tool_index: usize, here: bool) -> (button:
    ExternalToolButtonState)
    ensures
        button == tool_button(*state, tool_index, here),
{
    match state {
        ExternalToolToolbarState::Idle => ExternalToolButtonState::Idle,
        ExternalToolToolbarState::Running { .. } => ExternalToolButtonState::Running,
        ExternalToolToolbarState::Success { tool_index: last, .. } => if *last == tool_index
            && here {
            ExternalToolButtonState::Success
        } else {
            ExternalToolButtonState::Idle
        },
        ExternalToolToolbarState::Failed { tool_index: last, .. } => if *last == tool_index
            && here {
            ExternalToolButtonState::Failed
        } else {
            ExternalToolButtonState::Idle
        },
    }
}

impl ViewerState {
    /// The controls of the toolbar.
    pub fn viewer_toolbar(
        &self,
        favorite_state: ViewerFavoriteState,
        favorite_toggle_pending: bool,
        interaction_blocked: bool,
        tool_state: &ExternalToolToolbarState,
        capabilities: ViewerUiCapabilities,
    ) -> (toolbar: ViewerToolbarModel)
        ensures
            toolbar == self@.toolbar(
                favorite_state,
                favorite_toggle_pending,
                interaction_blocked,
                *tool_state is Running,
                capabilities,
            ),
    {
        let tool_running: bool = match tool_state {
            ExternalToolToolbarState::Running { .. } => true,
            _ => false,
        };
        let default_direction: ReadingDirection = self.persistent.global_reading_direction;
        let other_direction: ReadingDirection = opposite_reading_direction(default_direction);
        let (default_selected, other_selected): (bool, bool) =
            match self.persistent.reading_direction_override {
            None => (true, false),
            Some(chosen) => (chosen == default_direction, chosen == other_direction),
        };
        ViewerToolbarModel {
            favorite: favorite_button_and_hover(
                favorite_state,
                favorite_toggle_pending,
                capabilities.allow_favorite_toggle,
                interaction_blocked,
            ),
            spread: self.persistent.spread_setting,
            direction: DirectionChoice {
                default_direction,
                other_direction,
                default_selected,
                other_selected,
            },
            cover_blank: self.persistent.cover_blank,
            cover_blank_enabled: self.persistent.spread_setting != SpreadMode::Single
                && !interaction_blocked,
            quality_override: self.persistent.quality_override,
            slideshow_active: self.playback.slideshow_active,
            slideshow_interval: self.playback.slideshow_interval,
            delete_shown: capabilities.allow_delete,
            tools_enabled: !(interaction_blocked || tool_running),
            enabled: !interaction_blocked,
        }
    }

    /// The title beside the controls: the file name of the book, or its title where it has none.
    pub fn viewer_title(&self) -> (title: String)
        ensures
            exists|name: Option<Seq<char>>| #[trigger]
                may_be_named(self@.book.entry.path@, name) && title@ == match name {
                    Some(name) if name.len() > 0 => name,
                    _ => self@.book.entry.title@,
                },
    {
        let found: Option<String> = path_file_name(self.book.entry.path.as_str());
        assert(may_be_named(self@.book.entry.path@, text_of(found)));
        match found {
            Some(name) => if name.as_str().is_empty() {
                self.book.entry.title.clone()
            } else {
                name
            },
            None => self.book.entry.title.clone(),
        }
    }

    /// How the buttons of the external tools look, and whether they are live.
    pub fn external_tool_button(
        &self,
        state: &ExternalToolToolbarState,
        tool_index: usize,
        interaction_blocked: bool,
    ) -> (button: (ExternalToolButtonState, bool))
        ensures
            button.1 == !(interaction_blocked || *state is Running),
            exists|here: bool|
                {
                    &&& button.0 == #[trigger] tool_button(*state, tool_index, here)
                    &&& alike(tool_path(*state), self@.book.entry.path@) ==> here
                    &&& told_apart(tool_path(*state), self@.book.entry.path@) ==> !here
                },
    {
        let running: bool = match state {
            ExternalToolToolbarState::Running { .. } => true,
            _ => false,
        };
        let here: bool = match state {
            ExternalToolToolbarState::Idle => same_path("", self.book.entry.path.as_str()),
            ExternalToolToolbarState::Running { path, .. } => same_path(
                path.as_str(),
                self.book.entry.path.as_str(),
            ),
            ExternalToolToolbarState::Success { path, .. } => same_path(
                path.as_str(),
                self.book.entry.path.as_str(),
            ),
            ExternalToolToolbarState::Failed { path, .. } => same_path(
                path.as_str(),
                self.book.entry.path.as_str(),
            ),
        };
        proof {
            reveal_strlit("");
            assert(""@ =~= Seq::<char>::empty());
        }
        let button: ExternalToolButtonState = tool_button_state(state, tool_index, here);
        assert(button == tool_button(*state, tool_index, here));
        (button, !(interaction_blocked || running))
    }
}

/// Of two choices of a quality, and of two choices of a direction, the later one counts.
pub proof fn law_later_clicks_win(
    events: ToolbarEvents,
    toolbar: ViewerToolbarModel,
    first: Option<ViewerQuality>,
    second: Option<ViewerQuality>,
)
    ensures
        events_after(
            events_after(events, toolbar, ToolbarClick::Quality(first)),
            toolbar,
            ToolbarClick::Quality(second),
        ) == events_after(events, toolbar, ToolbarClick::Quality(second)),
        events_after(
            events_after(events, toolbar, ToolbarClick::DefaultDirection),
            toolbar,
            ToolbarClick::OtherDirection,
        ) == events_after(events, toolbar, ToolbarClick::OtherDirection),
        events_after(
            events_after(events, toolbar, ToolbarClick::OtherDirection),
            toolbar,
            ToolbarClick::DefaultDirection,
        ) == events_after(events, toolbar, ToolbarClick::DefaultDirection),
{
}

/// A click on a live control means what the control stands for, and a click on a dead one nothing.
pub proof fn law_clicks_mean_their_control(
    toolbar: ViewerToolbarModel,
    quality: Option<ViewerQuality>,
    interval: u64,
    tool: usize,
)
    requires
        toolbar.enabled,
        toolbar.favorite.enabled,
        toolbar.cover_blank_enabled,
        toolbar.tools_enabled,
        toolbar.delete_shown,
    ensures
        events_after(no_events(), toolbar, ToolbarClick::Favorite).toggle_favorite,
        events_after(no_events(), toolbar, ToolbarClick::Spread).toggle_spread,
        events_after(no_events(), toolbar, ToolbarClick::CoverBlank).toggle_cover_blank,
        events_after(no_events(), toolbar, ToolbarClick::Slideshow).toggle_slideshow,
        events_after(no_events(), toolbar, ToolbarClick::Fullscreen).toggle_fullscreen,
        events_after(no_events(), toolbar, ToolbarClick::Delete).delete,
        events_after(no_events(), toolbar, ToolbarClick::Interval(interval)).interval_change
            == Some(interval),
        events_after(no_events(), toolbar, ToolbarClick::Quality(quality)).quality_override_change
            == Some(quality),
        events_after(no_events(), toolbar, ToolbarClick::ExternalTool(tool)).external_tool_click
            == Some(tool),
        events_after(
            no_events(),
            toolbar,
            ToolbarClick::DefaultDirection,
        ).reading_direction_override_change == Some(None::<ReadingDirection>),
        events_after(
            no_events(),
            toolbar,
            ToolbarClick::OtherDirection,
        ).reading_direction_override_change == Some(Some(toolbar.direction.other_direction)),
{
}

/// Blocked input leaves no control live but the interval.
pub proof fn law_blocked_toolbars_are_dead(
    model: ViewerModel,
    state: ViewerFavoriteState,
    pending: bool,
    running: bool,
    capabilities: ViewerUiCapabilities,
    click: ToolbarClick,
    events: ToolbarEvents,
)
    requires
        !(click is Interval),
    ensures
        events_after(events, model.toolbar(state, pending, true, running, capabilities), click)
            == events,
{
}

/// The toolbar shows the settings that are in force. One of the two directions is selected: the
/// other one only where it was chosen for the book.
pub proof fn law_toolbars_show_the_settings(
    model: ViewerModel,
    state: ViewerFavoriteState,
    pending: bool,
    blocked: bool,
    running: bool,
    capabilities: ViewerUiCapabilities,
)
    ensures
        ({
            let toolbar = model.toolbar(state, pending, blocked, running, capabilities);
            &&& toolbar.spread == model.persistent.spread_setting
            &&& toolbar.cover_blank == model.persistent.cover_blank
            &&& toolbar.quality_override == model.persistent.quality_override
            &&& toolbar.slideshow_active == model.playback.slideshow_active
            &&& toolbar.slideshow_interval == model.playback.slideshow_interval
            &&& toolbar.direction.default_selected != toolbar.direction.other_selected
            &&& toolbar.direction.default_direction != toolbar.direction.other_direction
            &&& toolbar.direction.other_selected ==> model.persistent.reading_direction_override
                == Some(toolbar.direction.other_direction) && model.reading_direction()
                == toolbar.direction.other_direction
            &&& toolbar.direction.default_selected ==> model.reading_direction()
                == toolbar.direction.default_direction
            &&& toolbar.favorite.filled_star <==> state == ViewerFavoriteState::On
            &&& pending ==> toolbar.favorite.hint == FavoriteHint::Updating
                && !toolbar.favorite.enabled
            &&& !pending && state == ViewerFavoriteState::On ==> toolbar.favorite.hint
                == FavoriteHint::Remove
            &&& !pending && state == ViewerFavoriteState::Off ==> toolbar.favorite.hint
                == FavoriteHint::Add
            &&& !pending && state == ViewerFavoriteState::Unknown ==> toolbar.favorite.hint
                == FavoriteHint::Checking && !toolbar.favorite.enabled
            &&& !pending && !blocked && capabilities.allow_favorite_toggle && state
                != ViewerFavoriteState::Unknown ==> toolbar.favorite.enabled
        }),
{
}

/// The other direction of the other direction is the first one.
pub proof fn law_opposites_are_two(direction: ReadingDirection)
    ensures
        opposite(direction) != direction,
        opposite(opposite(direction)) == direction,
{
}

/// The button of a tool tells how its last run on this book went; while one runs, all tell so.
pub proof fn law_buttons_tell_their_last_run(tool: usize, other: usize, path: String)
    requires
        tool != other,
    ensures
        ({
            let success = ExternalToolToolbarState::Success { tool_index: tool, path };
            let failed = ExternalToolToolbarState::Failed { tool_index: tool, path };
            let running = ExternalToolToolbarState::Running { tool_index: tool, path };
            &&& tool_button(success, tool, true) == ExternalToolButtonState::Success
            &&& tool_button(failed, tool, true) == ExternalToolButtonState::Failed
            &&& tool_button(success, other, true) == ExternalToolButtonState::Idle
            &&& tool_button(failed, other, true) == ExternalToolButtonState::Idle
            &&& tool_button(success, tool, false) == ExternalToolButtonState::Idle
            &&& tool_button(failed, tool, false) == ExternalToolButtonState::Idle
            &&& tool_button(running, tool, false) == ExternalToolButtonState::Running
            &&& tool_button(running, other, true) == ExternalToolButtonState::Running
            &&& tool_button(ExternalToolToolbarState::Idle, tool, true)
                == ExternalToolButtonState::Idle
        }),
{
}

} // verus!
