//! Roles that views name, and the values that a design gives them.

use crate::float_bits::FloatBits;
use vstd::prelude::*;

verus! {

/// How round a corner is meant to be.
#[derive(Clone, Copy, Debug, PartialEq, Eq, Structural)]
pub enum RadiusRole {
    Small,
    Medium,
    Large,
    Pill,
}

/// How far above the window something is meant to be.
#[derive(Clone, Copy, Debug, PartialEq, Eq, Structural)]
pub enum ElevationRole {
    Surface,
    Floating,
}

/// What a text is meant to be.
#[derive(Clone, Copy, Debug, PartialEq, Eq, Structural)]
pub enum TypographyRole {
    Caption,
    Label,
    Body,
    Heading,
    Title,
    Display,
}

/// A value for each roundness.
#[derive(Clone, Copy, Debug, PartialEq, Eq, Structural)]
pub struct RadiusScale {
    pub small: FloatBits,
    pub medium: FloatBits,
    pub large: FloatBits,
    pub pill: FloatBits,
}

impl RadiusRole {
    /// The value that a design gives the role.
    pub open spec fn value_in(self, scale: RadiusScale) -> FloatBits {
        match self {
            RadiusRole::Small => scale.small,
            RadiusRole::Medium => scale.medium,
            RadiusRole::Large => scale.large,
            RadiusRole::Pill => scale.pill,
        }
    }

    /// The value that a design gives the role.
    pub fn resolve(self, scale: &RadiusScale) -> (radius: FloatBits)
        ensures
            radius == self.value_in(*scale),
    {
        match self {
            RadiusRole::Small => scale.small,
            RadiusRole::Medium => scale.medium,
            RadiusRole::Large => scale.large,
            RadiusRole::Pill => scale.pill,
        }
    }
}

/// A shadow.
#[derive(Clone, Copy, Debug, PartialEq, Eq, Structural)]
pub struct ShadowToken {
    pub opacity: FloatBits,
    pub y: FloatBits,
    pub blur: FloatBits,
    pub spread: FloatBits,
}

impl ElevationRole {
    /// The shadow that a design gives the role.
    pub fn resolve(self, surface: ShadowToken, floating: ShadowToken) -> (shadow: ShadowToken)
        ensures
            shadow == match self {
                ElevationRole::Surface => surface,
                ElevationRole::Floating => floating,
            },
    {
        match self {
            ElevationRole::Surface => surface,
            ElevationRole::Floating => floating,
        }
    }
}

/// The shape of a corner.
#[derive(Clone, Copy, Debug, PartialEq, Eq, Structural)]
pub enum CornerShape {
    Convex { radius: FloatBits },
    Concave { radius: FloatBits },
    Square,
}

/// The radius of a corner, below zero where it is cut out.
pub open spec fn signed(shape: CornerShape) -> FloatBits {
    match shape {
        CornerShape::Convex { radius } => radius,
        CornerShape::Concave { radius } => radius.opposite(),
        CornerShape::Square => FloatBits(0),
    }
}

/// The radius of a corner, below zero where it is cut out.
pub fn signed_radius(shape: CornerShape) -> (radius: FloatBits)
    ensures
        radius == signed(shape),
{
    match shape {
        CornerShape::Convex { radius } => radius,
        CornerShape::Concave { radius } => radius.negated(),
        CornerShape::Square => FloatBits(0),
    }
}

/// The shapes of the four corners of a box.
#[derive(Clone, Copy, Debug, PartialEq, Eq, Structural)]
pub struct CornerSpec {
    pub top_left: CornerShape,
    pub top_right: CornerShape,
    pub bottom_right: CornerShape,
    pub bottom_left: CornerShape,
}

/// How thick a text is.
#[derive(Clone, Copy, Debug, PartialEq, Eq, Structural)]
pub enum FontWeightToken {
    Normal,
    Medium,
    Semibold,
    Bold,
}

/// How a text looks.
#[derive(Clone, Copy, Debug, PartialEq, Eq, Structural)]
pub struct TextStyleConfig {
    pub size_rem: FloatBits,
    pub line_height: FloatBits,
    pub weight: FontWeightToken,
}

/// A look for each kind of text.
#[derive(Clone, Copy, Debug, PartialEq, Eq, Structural)]
pub struct TypographyConfig {
    pub caption: TextStyleConfig,
    pub label: TextStyleConfig,
    pub body: TextStyleConfig,
    pub heading: TextStyleConfig,
    pub title: TextStyleConfig,
    pub display: TextStyleConfig,
}

impl TypographyRole {
    /// The look that a design gives the role.
    pub open spec fn style_in(self, typography: TypographyConfig) -> TextStyleConfig {
        match self {
            TypographyRole::Caption => typography.caption,
            TypographyRole::Label => typography.label,
            TypographyRole::Body => typography.body,
            TypographyRole::Heading => typography.heading,
            TypographyRole::Title => typography.title,
            TypographyRole::Display => typography.display,
        }
    }

    /// The look that a design gives the role.
    pub fn resolve(self, typography: &TypographyConfig) -> (style: TextStyleConfig)
        ensures
            style == self.style_in(*typography),
    {
        match self {
            TypographyRole::Caption => typography.caption,
            TypographyRole::Label => typography.label,
            TypographyRole::Body => typography.body,
            TypographyRole::Heading => typography.heading,
            TypographyRole::Title => typography.title,
            TypographyRole::Display => typography.display,
        }
    }
}

/// The radii of the four corners of a box, below zero where they are cut out,
/// from the top left on clockwise.
pub fn corner_radii(corners: CornerSpec) -> (radii: [FloatBits; 4])
    ensures
        radii@ == seq![
            signed(corners.top_left),
            signed(corners.top_right),
            signed(corners.bottom_right),
            signed(corners.bottom_left),
        ],
{
    [
        signed_radius(corners.top_left),
        signed_radius(corners.top_right),
        signed_radius(corners.bottom_right),
        signed_radius(corners.bottom_left),
    ]
}

/// How a panel stands in its window.
#[derive(Clone, Copy, Debug, Default, PartialEq, Eq, Structural)]
pub enum PanelShellStyle {
    #[default]
    Docked,
    Floating,
}

/// How a button stands on its bar.
#[derive(Clone, Copy, Debug, PartialEq, Eq, Structural)]
pub enum ChromeButtonStyle {
    /// Part of the bar until it is used.
    Bare,
    /// Part of a floating surface until it is used.
    Floating,
    /// Chosen.
    Selected,
    /// Chosen, with less weight.
    SubtleSelected,
    /// The one to press.
    Primary,
}

/// The part that a color plays in a theme.
#[derive(Clone, Copy, Debug, PartialEq, Eq, Structural)]
pub enum ColorRole {
    ChromeBackground,
    FloatingBackground,
    FloatingBorder,
    ContentSecondary,
    ContentOnAccent,
    ControlHover,
    ControlPressed,
    Accent,
    AccentHover,
    AccentPressed,
    AccentSoft,
    AccentSoftHover,
    AccentBorder,
}

/// The colors of a button.
#[derive(Clone, Copy, Debug, PartialEq, Eq, Structural)]
pub struct ButtonColors {
    pub background: ColorRole,
    pub border: ColorRole,
    pub text: ColorRole,
    pub hover: ColorRole,
    pub pressed: ColorRole,
    /// Hover and press let the surface below show through.
    pub fades_on_use: bool,
    /// The border lets the surface below show through.
    pub fades_border: bool,
}

impl ChromeButtonStyle {
    /// The colors of a button of the style.
    pub open spec fn palette(self) -> ButtonColors {
        let quiet = self == ChromeButtonStyle::Bare || self == ChromeButtonStyle::Floating;
        let chosen = self == ChromeButtonStyle::Selected || self
            == ChromeButtonStyle::SubtleSelected;
        ButtonColors {
            background: match self {
                ChromeButtonStyle::Bare => ColorRole::ChromeBackground,
                ChromeButtonStyle::Floating => ColorRole::FloatingBackground,
                ChromeButtonStyle::Primary => ColorRole::Accent,
                _ => ColorRole::AccentSoft,
            },
            border: match self {
                ChromeButtonStyle::Bare => ColorRole::ChromeBackground,
                ChromeButtonStyle::Floating => ColorRole::FloatingBorder,
                ChromeButtonStyle::Selected => ColorRole::AccentBorder,
                ChromeButtonStyle::SubtleSelected => ColorRole::AccentSoft,
                ChromeButtonStyle::Primary => ColorRole::Accent,
            },
            text: if quiet {
                ColorRole::ContentSecondary
            } else if chosen {
                ColorRole::Accent
            } else {
                ColorRole::ContentOnAccent
            },
            hover: if quiet {
                ColorRole::ControlHover
            } else if chosen {
                ColorRole::AccentSoftHover
            } else {
                ColorRole::AccentHover
            },
            pressed: if self == ChromeButtonStyle::Primary {
                ColorRole::AccentPressed
            } else {
                ColorRole::ControlPressed
            },
            fades_on_use: quiet,
            fades_border: chosen,
        }
    }

    /// The colors of a button of the style.
    pub fn colors(self) -> (colors: ButtonColors)
        ensures
            colors == self.palette(),
    {
        match self {
            ChromeButtonStyle::Bare => ButtonColors {
                background: ColorRole::ChromeBackground,
                border: ColorRole::ChromeBackground,
                text: ColorRole::ContentSecondary,
                hover: ColorRole::ControlHover,
                pressed: ColorRole::ControlPressed,
                fades_on_use: true,
                fades_border: false,
            },
            ChromeButtonStyle::Floating => ButtonColors {
                background: ColorRole::FloatingBackground,
                border: ColorRole::FloatingBorder,
                text: ColorRole::ContentSecondary,
                hover: ColorRole::ControlHover,
                pressed: ColorRole::ControlPressed,
                fades_on_use: true,
                fades_border: false,
            },
            ChromeButtonStyle::Selected => ButtonColors {
                background: ColorRole::AccentSoft,
                border: ColorRole::AccentBorder,
                text: ColorRole::Accent,
                hover: ColorRole::AccentSoftHover,
                pressed: ColorRole::ControlPressed,
                fades_on_use: false,
                fades_border: true,
            },
            ChromeButtonStyle::SubtleSelected => ButtonColors {
                background: ColorRole::AccentSoft,
                border: ColorRole::AccentSoft,
                text: ColorRole::Accent,
                hover: ColorRole::AccentSoftHover,
                pressed: ColorRole::ControlPressed,
                fades_on_use: false,
                fades_border: true,
            },
            ChromeButtonStyle::Primary => ButtonColors {
                background: ColorRole::Accent,
                border: ColorRole::Accent,
                text: ColorRole::ContentOnAccent,
                hover: ColorRole::AccentHover,
                pressed: ColorRole::AccentPressed,
                fades_on_use: false,
                fades_border: false,
            },
        }
    }
}

/// Every role has the value that the design gives it, and no role the value of another.
pub proof fn law_roles_have_their_own_values(
    scale: RadiusScale,
    typography: TypographyConfig,
    surface: ShadowToken,
    floating: ShadowToken,
    low: ShadowToken,
    high: ShadowToken,
)
    requires
        call_ensures(ElevationRole::resolve, (ElevationRole::Surface, surface, floating), low),
        call_ensures(ElevationRole::resolve, (ElevationRole::Floating, surface, floating), high),
    ensures
        RadiusRole::Small.value_in(scale) == scale.small,
        RadiusRole::Medium.value_in(scale) == scale.medium,
        RadiusRole::Large.value_in(scale) == scale.large,
        RadiusRole::Pill.value_in(scale) == scale.pill,
        TypographyRole::Caption.style_in(typography) == typography.caption,
        TypographyRole::Label.style_in(typography) == typography.label,
        TypographyRole::Body.style_in(typography) == typography.body,
        TypographyRole::Heading.style_in(typography) == typography.heading,
        TypographyRole::Title.style_in(typography) == typography.title,
        TypographyRole::Display.style_in(typography) == typography.display,
        low == surface,
        high == floating,
{
}

/// A round corner has its radius, one that is cut out the opposite of it, and a square one
/// none. The radii of a box go round from the top left.
pub proof fn law_corners_have_their_radius(
    corners: CornerSpec,
    radius: FloatBits,
    radii: [FloatBits; 4],
)
    requires
        call_ensures(corner_radii, (corners,), radii),
    ensures
        signed(CornerShape::Convex { radius }) == radius,
        signed(CornerShape::Concave { radius }).rank() == -radius.rank(),
        signed(CornerShape::Square).rank() == 0,
        radii@[0] == signed(corners.top_left),
        radii@[1] == signed(corners.top_right),
        radii@[2] == signed(corners.bottom_right),
        radii@[3] == signed(corners.bottom_left),
{
}

/// What stands on a button can be told from its ground, a button that is used from one that
/// is not, and one that is pressed from one that is pointed at. Quiet buttons are part of
/// what they stand on, chosen ones have a soft ground, and the one to press the accent.
pub proof fn law_buttons_can_be_told_apart(style: ChromeButtonStyle, other: ChromeButtonStyle)
    ensures
        style.palette().text != style.palette().background,
        style.palette().hover != style.palette().background,
        style.palette().pressed != style.palette().background,
        style.palette().pressed != style.palette().hover,
        style != other ==> style.palette() != other.palette(),
        style is Primary <==> style.palette().background == ColorRole::Accent,
        style is Primary <==> style.palette().text == ColorRole::ContentOnAccent,
        style is Bare || style is Floating <==> style.palette().fades_on_use,
        style is Bare || style is Floating <==> style.palette().text
            == ColorRole::ContentSecondary,
        style is Selected || style is SubtleSelected <==> style.palette().background
            == ColorRole::AccentSoft,
        style is Selected || style is SubtleSelected <==> style.palette().fades_border,
        style is Bare ==> style.palette().border == style.palette().background,
        style is Floating ==> style.palette().border == ColorRole::FloatingBorder,
        style is Selected ==> style.palette().border == ColorRole::AccentBorder,
        style is SubtleSelected ==> style.palette().border == style.palette().background,
        style is Primary ==> style.palette().border == style.palette().background,
        style is Primary <==> style.palette().pressed == ColorRole::AccentPressed,
        style is Primary <==> style.palette().hover == ColorRole::AccentHover,
        style is Bare || style is Floating <==> style.palette().hover == ColorRole::ControlHover,
        style is Selected || style is SubtleSelected <==> style.palette().hover
            == ColorRole::AccentSoftHover,
        style is Primary || style.palette().pressed == ColorRole::ControlPressed,
        style is Bare <==> style.palette().background == ColorRole::ChromeBackground,
        style is Floating <==> style.palette().background == ColorRole::FloatingBackground,
        style is Selected || style is SubtleSelected <==> style.palette().text
            == ColorRole::Accent,
{
}

} // verus!
