//! The colours of a cell's frame and badges.
use vstd::prelude::*;

verus! {

#[derive(Clone, Copy, Debug, PartialEq, Eq, Structural)]
pub enum LibraryCardSelectionStyle {
    Default,
    Violet,
    Amber,
    Rose,
    HighContrast,
}

#[derive(Clone, Copy, Debug, PartialEq, Eq, Structural)]
pub enum LibraryHudStyle {
    Default,
    White,
    Blue,
    HighContrast,
    Amber,
    Rose,
    Violet,
}

/// A colour: of its own, or one of the caller's theme.
#[derive(Clone, Copy, Debug, PartialEq, Eq, Structural)]
pub enum HudColor {
    Rgba(u8, u8, u8, u8),
    TextOnDark,
    /// The accent of the theme, this opaque.
    Accent(u8),
}

#[derive(Clone, Copy, Debug, PartialEq, Eq, Structural)]
pub struct HudPalette {
    pub background: HudColor,
    pub foreground: HudColor,
}

/// Red, green and blue of the frame around a selected cell.
pub open spec fn border(style: LibraryCardSelectionStyle) -> (u8, u8, u8) {
    match style {
        LibraryCardSelectionStyle::Default => (40, 84, 222),
        LibraryCardSelectionStyle::Violet => (115, 89, 217),
        LibraryCardSelectionStyle::Amber => (198, 142, 57),
        LibraryCardSelectionStyle::Rose => (194, 103, 131),
        LibraryCardSelectionStyle::HighContrast => (0, 0, 0),
    }
}

pub fn card_selection_palette(style: LibraryCardSelectionStyle) -> (color: (u8, u8, u8))
    ensures
        color == border(style),
{
    match style {
        LibraryCardSelectionStyle::Default => (40, 84, 222),
        LibraryCardSelectionStyle::Violet => (115, 89, 217),
        LibraryCardSelectionStyle::Amber => (198, 142, 57),
        LibraryCardSelectionStyle::Rose => (194, 103, 131),
        LibraryCardSelectionStyle::HighContrast => (0, 0, 0),
    }
}

pub open spec fn overlay_color(style: LibraryCardSelectionStyle, alpha: u8) -> HudColor {
    let (red, green, blue) = border(style);
    HudColor::Rgba(red, green, blue, alpha)
}

pub fn selection_overlay_color(style: LibraryCardSelectionStyle, alpha: u8) -> (color: HudColor)
    ensures
        color == overlay_color(style, alpha),
{
    let (red, green, blue): (u8, u8, u8) = card_selection_palette(style);
    HudColor::Rgba(red, green, blue, alpha)
}

/// The background of a badge on a cell that is not selected.
pub open spec fn plain_background(style: LibraryHudStyle) -> HudColor {
    match style {
        LibraryHudStyle::Default => HudColor::Rgba(0, 0, 0, 165),
        LibraryHudStyle::White => HudColor::Rgba(255, 255, 255, 214),
        LibraryHudStyle::Blue => HudColor::Accent(196),
        LibraryHudStyle::HighContrast => HudColor::Rgba(0, 0, 0, 240),
        LibraryHudStyle::Amber => HudColor::Rgba(152, 106, 42, 214),
        LibraryHudStyle::Rose => HudColor::Rgba(120, 72, 92, 214),
        LibraryHudStyle::Violet => HudColor::Rgba(78, 68, 126, 214),
    }
}

/// The text of a badge.
pub open spec fn foreground(style: LibraryHudStyle, selected: bool) -> HudColor {
    match style {
        LibraryHudStyle::Default => HudColor::TextOnDark,
        LibraryHudStyle::White => if selected {
            HudColor::Rgba(18, 18, 18, 255)
        } else {
            HudColor::Rgba(28, 28, 28, 255)
        },
        LibraryHudStyle::Blue => HudColor::TextOnDark,
        LibraryHudStyle::HighContrast => HudColor::Rgba(255, 255, 255, 255),
        LibraryHudStyle::Amber => if selected {
            HudColor::Rgba(252, 245, 228, 255)
        } else {
            HudColor::Rgba(250, 240, 220, 255)
        },
        LibraryHudStyle::Rose => if selected {
            HudColor::Rgba(251, 243, 247, 255)
        } else {
            HudColor::Rgba(246, 233, 239, 255)
        },
        LibraryHudStyle::Violet => if selected {
            HudColor::Rgba(248, 246, 253, 255)
        } else {
            HudColor::Rgba(242, 240, 250, 255)
        },
    }
}

/// The colours of a badge: on a selected cell the background is that of the frame, so opaque.
pub fn hud_overlay_palette(
    style: LibraryHudStyle,
    selected: bool,
    selection_style: LibraryCardSelectionStyle,
    alpha: u8,
) -> (palette: HudPalette)
    ensures
        palette.background == if selected {
            overlay_color(selection_style, alpha)
        } else {
            plain_background(style)
        },
        palette.foreground == foreground(style, selected),
{
    let background: HudColor = if selected {
        selection_overlay_color(selection_style, alpha)
    } else {
        match style {
            LibraryHudStyle::Default => HudColor::Rgba(0, 0, 0, 165),
            LibraryHudStyle::White => HudColor::Rgba(255, 255, 255, 214),
            LibraryHudStyle::Blue => HudColor::Accent(196),
            LibraryHudStyle::HighContrast => HudColor::Rgba(0, 0, 0, 240),
            LibraryHudStyle::Amber => HudColor::Rgba(152, 106, 42, 214),
            LibraryHudStyle::Rose => HudColor::Rgba(120, 72, 92, 214),
            LibraryHudStyle::Violet => HudColor::Rgba(78, 68, 126, 214),
        }
    };
    let foreground: HudColor = match (style, selected) {
        (LibraryHudStyle::Default, _) => HudColor::TextOnDark,
        (LibraryHudStyle::Blue, _) => HudColor::TextOnDark,
        (LibraryHudStyle::HighContrast, _) => HudColor::Rgba(255, 255, 255, 255),
        (LibraryHudStyle::White, false) => HudColor::Rgba(28, 28, 28, 255),
        (LibraryHudStyle::White, true) => HudColor::Rgba(18, 18, 18, 255),
        (LibraryHudStyle::Amber, false) => HudColor::Rgba(250, 240, 220, 255),
        (LibraryHudStyle::Amber, true) => HudColor::Rgba(252, 245, 228, 255),
        (LibraryHudStyle::Rose, false) => HudColor::Rgba(246, 233, 239, 255),
        (LibraryHudStyle::Rose, true) => HudColor::Rgba(251, 243, 247, 255),
        (LibraryHudStyle::Violet, false) => HudColor::Rgba(242, 240, 250, 255),
        (LibraryHudStyle::Violet, true) => HudColor::Rgba(248, 246, 253, 255),
    };
    HudPalette { background, foreground }
}

/// What frames a cell.
#[derive(Clone, Copy, Debug, PartialEq, Eq, Structural)]
pub enum CellFrame {
    Nothing,
    Selected(u8, u8, u8),
    Hovered,
}

pub fn cell_frame(style: LibraryCardSelectionStyle, selected: bool, hovered: bool) -> (frame: CellFrame)
    ensures
        frame == if selected {
            CellFrame::Selected(border(style).0, border(style).1, border(style).2)
        } else if hovered {
            CellFrame::Hovered
        } else {
            CellFrame::Nothing
        },
{
    if selected {
        let (red, green, blue): (u8, u8, u8) = card_selection_palette(style);
        CellFrame::Selected(red, green, blue)
    } else if hovered {
        CellFrame::Hovered
    } else {
        CellFrame::Nothing
    }
}

/// The frames of the styles are told apart by their colour, and so are their badges.
pub proof fn law_styles_are_told_apart(
    a: LibraryCardSelectionStyle,
    b: LibraryCardSelectionStyle,
    c: LibraryHudStyle,
    d: LibraryHudStyle,
)
    ensures
        border(a) == border(b) ==> a == b,
        plain_background(c) == plain_background(d) ==> c == d,
{
}

/// A badge on a selected cell has the colour of the frame.
pub proof fn law_selected_badges_match_the_frame(style: LibraryCardSelectionStyle, alpha: u8)
    ensures
        overlay_color(style, alpha) matches HudColor::Rgba(red, green, blue, opacity) && (
            red,
            green,
            blue,
        ) == border(style) && opacity == alpha,
{
}

} // verus!
