//! The colors of a view.

use crate::runtime::demand::{ColorMode, PixelColor};
use vstd::prelude::*;

verus! {

/// A color.
#[derive(Clone, Copy, Debug, PartialEq, Eq, Structural)]
pub struct ViewportColor {
    pub red: u8,
    pub green: u8,
    pub blue: u8,
    pub alpha: u8,
}

impl ViewportColor {
    /// A color by its channels.
    pub fn rgba(red: u8, green: u8, blue: u8, alpha: u8) -> (color: ViewportColor)
        ensures
            color == (ViewportColor { red, green, blue, alpha }),
    {
        ViewportColor { red, green, blue, alpha }
    }
}

impl From<ViewportColor> for PixelColor {
    fn from(value: ViewportColor) -> (color: Self) {
        PixelColor { red: value.red, green: value.green, blue: value.blue, alpha: value.alpha }
    }
}

impl vstd::std_specs::convert::FromSpecImpl<ViewportColor> for PixelColor {
    open spec fn obeys_from_spec() -> bool {
        true
    }

    open spec fn from_spec(value: ViewportColor) -> Self {
        PixelColor { red: value.red, green: value.green, blue: value.blue, alpha: value.alpha }
    }
}

/// The colors of a view, and how an engine is to render pages.
#[derive(Clone, Copy, Debug, PartialEq, Eq, Structural)]
pub struct PdfReaderAppearance {
    pub pane_background: ViewportColor,
    pub paper_background: ViewportColor,
    pub paper_border: ViewportColor,
    pub selection: ViewportColor,
    pub render_color_mode: ColorMode,
}

impl PdfReaderAppearance {
    /// The colors where no theme is set.
    pub open spec fn usual() -> PdfReaderAppearance {
        PdfReaderAppearance {
            pane_background: ViewportColor { red: 238, green: 240, blue: 243, alpha: 255 },
            paper_background: ViewportColor { red: 255, green: 255, blue: 255, alpha: 255 },
            paper_border: ViewportColor { red: 202, green: 205, blue: 211, alpha: 255 },
            selection: ViewportColor { red: 56, green: 132, blue: 255, alpha: 96 },
            render_color_mode: ColorMode::Original,
        }
    }
}

impl Default for PdfReaderAppearance {
    fn default() -> (appearance: Self)
        ensures
            appearance == PdfReaderAppearance::usual(),
    {
        PdfReaderAppearance {
            pane_background: ViewportColor::rgba(238, 240, 243, 255),
            paper_background: ViewportColor::rgba(255, 255, 255, 255),
            paper_border: ViewportColor::rgba(202, 205, 211, 255),
            selection: ViewportColor::rgba(56, 132, 255, 96),
            render_color_mode: ColorMode::Original,
        }
    }
}

/// The colors of a theme that a view is made of.
#[derive(Clone, Copy, Debug, PartialEq, Eq, Structural)]
pub struct ThemeColors {
    pub canvas: ViewportColor,
    pub background: ViewportColor,
    pub border: ViewportColor,
    pub selection: ViewportColor,
    pub primary: ViewportColor,
}

/// A channel that was made lighter or darker.
pub open spec fn shifted_channel(channel: u8, shift: int) -> u8 {
    crate::viewport::limits::bounded(channel + shift, 0, 255) as u8
}

/// Makes a channel lighter or darker.
pub fn shift_channel(channel: u8, shift: i16) -> (shifted: u8)
    requires
        -255 <= shift <= 255,
    ensures
        shifted == shifted_channel(channel, shift as int),
{
    let value: i16 = channel as i16 + shift;
    if value < 0 {
        0
    } else if value > 255 {
        255
    } else {
        value as u8
    }
}

/// The color of paper on a pane: where both would be the same, paper is a
/// little lighter on a dark pane and a little darker on a light one.
pub open spec fn paper_on(pane: ViewportColor, paper: ViewportColor) -> ViewportColor {
    if paper == pane {
        let shift: int = if (pane.red + pane.green + pane.blue) / 3 < 128 {
            14
        } else {
            -14
        };
        ViewportColor {
            red: shifted_channel(paper.red, shift),
            green: shifted_channel(paper.green, shift),
            blue: shifted_channel(paper.blue, shift),
            alpha: paper.alpha,
        }
    } else {
        paper
    }
}

/// The colors of a view under a theme. Pages are forced onto the colors of the
/// theme where that is asked for.
pub fn appearance_from_theme(theme: ThemeColors, force_dark_pdf: bool) -> (appearance:
    PdfReaderAppearance)
    ensures
        appearance.pane_background == theme.canvas,
        appearance.paper_background == paper_on(theme.canvas, theme.background),
        appearance.paper_border == theme.border,
        appearance.selection == theme.selection,
        appearance.render_color_mode == if force_dark_pdf {
            let paper = paper_on(theme.canvas, theme.background);
            ColorMode::Forced {
                background: PixelColor {
                    red: paper.red,
                    green: paper.green,
                    blue: paper.blue,
                    alpha: paper.alpha,
                },
                foreground: PixelColor {
                    red: theme.primary.red,
                    green: theme.primary.green,
                    blue: theme.primary.blue,
                    alpha: theme.primary.alpha,
                },
            }
        } else {
            ColorMode::Original
        },
{
    let pane = theme.canvas;
    let mut paper = theme.background;
    if paper == pane {
        let luminance: u16 = (pane.red as u16 + pane.green as u16 + pane.blue as u16) / 3;
        let shift: i16 = if luminance < 128 {
            14
        } else {
            -14
        };
        paper = ViewportColor {
            red: shift_channel(paper.red, shift),
            green: shift_channel(paper.green, shift),
            blue: shift_channel(paper.blue, shift),
            alpha: paper.alpha,
        };
    }
    PdfReaderAppearance {
        pane_background: pane,
        paper_background: paper,
        paper_border: theme.border,
        selection: theme.selection,
        render_color_mode: if force_dark_pdf {
            ColorMode::Forced {
                background: PixelColor::from(paper),
                foreground: PixelColor::from(theme.primary),
            }
        } else {
            ColorMode::Original
        },
    }
}

/// Under any theme, paper can be told from the pane.
pub proof fn law_paper_stands_out(pane: ViewportColor, paper: ViewportColor)
    ensures
        paper_on(pane, paper) != pane,
{
}

/// Paper that differs from the pane keeps its color. Paper of the same color becomes
/// lighter in no channel less, and by no more than fourteen, on a dark pane, and darker in
/// the same way on a light one. It is as opaque as it was.
pub proof fn law_paper_is_shifted_a_little(pane: ViewportColor, paper: ViewportColor)
    ensures
        paper != pane ==> paper_on(pane, paper) == paper,
        paper_on(pane, paper).alpha == paper.alpha,
        paper == pane && pane.red + pane.green + pane.blue < 384 ==> {
            let lighter = paper_on(pane, paper);
            &&& lighter.red == paper.red + 14 || (lighter.red == 255 && paper.red + 14 > 255)
            &&& lighter.green == paper.green + 14 || (lighter.green == 255 && paper.green + 14
                > 255)
            &&& lighter.blue == paper.blue + 14 || (lighter.blue == 255 && paper.blue + 14 > 255)
        },
        paper == pane && pane.red + pane.green + pane.blue >= 384 ==> {
            let darker = paper_on(pane, paper);
            &&& darker.red == paper.red - 14 || (darker.red == 0 && paper.red < 14)
            &&& darker.green == paper.green - 14 || (darker.green == 0 && paper.green < 14)
            &&& darker.blue == paper.blue - 14 || (darker.blue == 0 && paper.blue < 14)
        },
{
}

/// A view has the colors of its theme. Pages are rendered in their own colors, unless they
/// are forced: then from the color of the paper to that of what stands on it.
pub proof fn law_views_have_the_colors_of_their_theme(
    theme: ThemeColors,
    forced: PdfReaderAppearance,
    free: PdfReaderAppearance,
)
    requires
        call_ensures(appearance_from_theme, (theme, true), forced),
        call_ensures(appearance_from_theme, (theme, false), free),
    ensures
        free.render_color_mode is Original,
        free.pane_background == theme.canvas && forced.pane_background == theme.canvas,
        free.paper_border == theme.border && forced.paper_border == theme.border,
        free.selection == theme.selection && forced.selection == theme.selection,
        free.paper_background == forced.paper_background,
        theme.background != theme.canvas ==> free.paper_background == theme.background,
        free.paper_background != free.pane_background,
        forced.render_color_mode matches ColorMode::Forced { background, foreground } && {
            &&& background.red == forced.paper_background.red
            &&& background.green == forced.paper_background.green
            &&& background.blue == forced.paper_background.blue
            &&& background.alpha == forced.paper_background.alpha
            &&& foreground.red == theme.primary.red
            &&& foreground.green == theme.primary.green
            &&& foreground.blue == theme.primary.blue
            &&& foreground.alpha == theme.primary.alpha
        },
{
    law_paper_stands_out(theme.canvas, theme.background);
}

/// Where no theme is set paper is white and stands out from a light pane that nothing shows
/// through, a selection lets the page show through, and pages have their own colors.
pub proof fn law_usual_colors_are_those_of_paper()
    ensures
        ({
            let usual = PdfReaderAppearance::usual();
            &&& usual.paper_background.red == 255 && usual.paper_background.green == 255
                && usual.paper_background.blue == 255 && usual.paper_background.alpha == 255
            &&& usual.pane_background.red == 238 && usual.pane_background.green == 240
                && usual.pane_background.blue == 243 && usual.pane_background.alpha == 255
            &&& usual.paper_border.red == 202 && usual.paper_border.green == 205
                && usual.paper_border.blue == 211 && usual.paper_border.alpha == 255
            &&& usual.selection.red == 56 && usual.selection.green == 132
                && usual.selection.blue == 255 && usual.selection.alpha == 96
            &&& usual.render_color_mode is Original
        }),
{
}

} // verus!
