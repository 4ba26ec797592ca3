//! The colors that views name, taken from a theme and from what a user chose.

use crate::float_bits::FloatBits;
use vstd::prelude::*;

verus! {

/// A color by hue, saturation, lightness and opacity.
#[derive(Clone, Copy, Debug, PartialEq, Eq, Structural)]
pub struct Hsla {
    pub hue: FloatBits,
    pub saturation: FloatBits,
    pub lightness: FloatBits,
    pub alpha: FloatBits,
}

/// The colors of a component theme.
#[derive(Clone, Copy, Debug, PartialEq, Eq, Structural)]
pub struct ComponentTheme {
    pub title_bar: Hsla,
    pub background: Hsla,
    pub foreground: Hsla,
    pub popover: Hsla,
    pub border: Hsla,
    pub muted: Hsla,
    pub secondary: Hsla,
    pub secondary_foreground: Hsla,
    pub secondary_hover: Hsla,
    pub secondary_active: Hsla,
    pub muted_foreground: Hsla,
    pub primary: Hsla,
    pub primary_foreground: Hsla,
    pub primary_hover: Hsla,
    pub primary_active: Hsla,
    pub accent: Hsla,
    pub list_hover: Hsla,
    pub list_active_border: Hsla,
    pub danger: Hsla,
    /// The color of danger, thinned for the ground of a notice.
    pub danger_soft: Hsla,
    pub warning: Hsla,
    pub green: Hsla,
    pub blue: Hsla,
    pub selection: Hsla,
}

/// The surfaces of a theme with some of its foreground mixed in.
#[derive(Clone, Copy, Debug, PartialEq, Eq, Structural)]
pub struct LayeredSurfaces {
    pub chrome: Hsla,
    pub canvas: Hsla,
    pub sidebar: Hsla,
    pub split_gutter: Hsla,
}

/// The colors that a user chose.
#[derive(Clone, Copy, Debug, PartialEq, Eq, Structural)]
pub struct ColorOverrides {
    pub surface_chrome: Option<Hsla>,
    pub surface_canvas: Option<Hsla>,
    pub surface_sidebar: Option<Hsla>,
    pub surface_split_gutter: Option<Hsla>,
    pub surface_background: Option<Hsla>,
    pub surface_popover: Option<Hsla>,
    pub surface_border: Option<Hsla>,
    pub content_primary: Option<Hsla>,
    pub content_secondary: Option<Hsla>,
    pub content_tertiary: Option<Hsla>,
    pub action_accent: Option<Hsla>,
}

/// Surfaces and their edges.
#[derive(Clone, Copy, Debug, PartialEq, Eq, Structural)]
pub struct SurfaceTokens {
    pub chrome: Hsla,
    pub background: Hsla,
    pub muted: Hsla,
    pub canvas: Hsla,
    pub sidebar: Hsla,
    pub split_gutter: Hsla,
    pub overlay: Hsla,
    pub border: Hsla,
}

/// What stands on surfaces, by how much it matters.
#[derive(Clone, Copy, Debug, PartialEq, Eq, Structural)]
pub struct ContentTokens {
    pub primary: Hsla,
    pub secondary: Hsla,
    pub tertiary: Hsla,
    pub on_accent: Hsla,
}

/// What can be pressed.
#[derive(Clone, Copy, Debug, PartialEq, Eq, Structural)]
pub struct ActionTokens {
    pub control: Hsla,
    pub control_hover: Hsla,
    pub control_pressed: Hsla,
    pub accent: Hsla,
    pub accent_hover: Hsla,
    pub accent_pressed: Hsla,
    pub accent_soft: Hsla,
    pub accent_soft_hover: Hsla,
    pub accent_border: Hsla,
}

/// What tells how things stand.
#[derive(Clone, Copy, Debug, PartialEq, Eq, Structural)]
pub struct StatusTokens {
    pub danger: Hsla,
    pub danger_soft: Hsla,
    pub warning: Hsla,
    pub success: Hsla,
    pub info: Hsla,
}

/// What a material is mixed from.
#[derive(Clone, Copy, Debug, PartialEq, Eq, Structural)]
pub struct MaterialToken {
    pub background: Hsla,
    pub border: Hsla,
    pub highlight: Hsla,
}

/// The materials of a window.
#[derive(Clone, Copy, Debug, PartialEq, Eq, Structural)]
pub struct MaterialTokens {
    pub window: MaterialToken,
    pub chrome: MaterialToken,
    pub surface: MaterialToken,
    pub floating: MaterialToken,
    pub control: MaterialToken,
}

/// The colors that views name.
#[derive(Clone, Copy, Debug, PartialEq, Eq, Structural)]
pub struct ThemeTokens {
    pub surface: SurfaceTokens,
    pub content: ContentTokens,
    pub action: ActionTokens,
    pub status: StatusTokens,
    pub selection: Hsla,
    pub materials: MaterialTokens,
}

/// What a user chose, or else what there is.
pub open spec fn chosen_or(chosen: Option<Hsla>, color: Hsla) -> Hsla {
    match chosen {
        Some(chosen) => chosen,
        None => color,
    }
}

fn or_theme(chosen: Option<Hsla>, color: Hsla) -> (result: Hsla)
    ensures
        result == chosen_or(chosen, color),
{
    match chosen {
        Some(chosen) => chosen,
        None => color,
    }
}

impl ThemeTokens {
    /// The colors that views name: what the user chose, and else what the theme
    /// has, with the foreground mixed into the surfaces.
    pub open spec fn taken_from(
        theme: ComponentTheme,
        layered: LayeredSurfaces,
        chosen: ColorOverrides,
    ) -> ThemeTokens {
        let chrome = chosen_or(chosen.surface_chrome, layered.chrome);
        let border = chosen_or(chosen.surface_border, theme.border);
        let primary = chosen_or(chosen.content_primary, theme.foreground);
        let highlight = primary;
        ThemeTokens {
            surface: SurfaceTokens {
                chrome,
                background: chosen_or(chosen.surface_background, theme.background),
                muted: theme.muted,
                canvas: chosen_or(chosen.surface_canvas, layered.canvas),
                sidebar: chosen_or(chosen.surface_sidebar, layered.sidebar),
                split_gutter: chosen_or(chosen.surface_split_gutter, layered.split_gutter),
                overlay: chosen_or(chosen.surface_popover, theme.popover),
                border,
            },
            content: ContentTokens {
                primary,
                secondary: chosen_or(chosen.content_secondary, theme.secondary_foreground),
                tertiary: chosen_or(chosen.content_tertiary, theme.muted_foreground),
                on_accent: theme.primary_foreground,
            },
            action: ActionTokens {
                control: theme.secondary,
                control_hover: theme.secondary_hover,
                control_pressed: theme.secondary_active,
                accent: chosen_or(chosen.action_accent, theme.primary),
                accent_hover: theme.primary_hover,
                accent_pressed: theme.primary_active,
                accent_soft: theme.accent,
                accent_soft_hover: theme.list_hover,
                accent_border: theme.list_active_border,
            },
            status: StatusTokens {
                danger: theme.danger,
                danger_soft: theme.danger_soft,
                warning: theme.warning,
                success: theme.green,
                info: theme.blue,
            },
            selection: theme.selection,
            materials: MaterialTokens {
                window: MaterialToken { background: theme.background, border, highlight },
                chrome: MaterialToken { background: chrome, border, highlight },
                surface: MaterialToken { background: theme.background, border, highlight },
                floating: MaterialToken { background: theme.popover, border, highlight },
                control: MaterialToken { background: theme.secondary, border, highlight },
            },
        }
    }

    /// The colors that views name.
    pub fn from_theme(
        theme: &ComponentTheme,
        layered: &LayeredSurfaces,
        chosen: &ColorOverrides,
    ) -> (tokens: ThemeTokens)
        ensures
            tokens == ThemeTokens::taken_from(*theme, *layered, *chosen),
    {
        let chrome = or_theme(chosen.surface_chrome, layered.chrome);
        let border = or_theme(chosen.surface_border, theme.border);
        let primary = or_theme(chosen.content_primary, theme.foreground);
        let highlight = primary;
        ThemeTokens {
            surface: SurfaceTokens {
                chrome,
                background: or_theme(chosen.surface_background, theme.background),
                muted: theme.muted,
                canvas: or_theme(chosen.surface_canvas, layered.canvas),
                sidebar: or_theme(chosen.surface_sidebar, layered.sidebar),
                split_gutter: or_theme(chosen.surface_split_gutter, layered.split_gutter),
                overlay: or_theme(chosen.surface_popover, theme.popover),
                border,
            },
            content: ContentTokens {
                primary,
                secondary: or_theme(chosen.content_secondary, theme.secondary_foreground),
                tertiary: or_theme(chosen.content_tertiary, theme.muted_foreground),
                on_accent: theme.primary_foreground,
            },
            action: ActionTokens {
                control: theme.secondary,
                control_hover: theme.secondary_hover,
                control_pressed: theme.secondary_active,
                accent: or_theme(chosen.action_accent, theme.primary),
                accent_hover: theme.primary_hover,
                accent_pressed: theme.primary_active,
                accent_soft: theme.accent,
                accent_soft_hover: theme.list_hover,
                accent_border: theme.list_active_border,
            },
            status: StatusTokens {
                danger: theme.danger,
                danger_soft: theme.danger_soft,
                warning: theme.warning,
                success: theme.green,
                info: theme.blue,
            },
            selection: theme.selection,
            materials: MaterialTokens {
                window: MaterialToken { background: theme.background, border, highlight },
                chrome: MaterialToken { background: chrome, border, highlight },
                surface: MaterialToken { background: theme.background, border, highlight },
                floating: MaterialToken { background: theme.popover, border, highlight },
                control: MaterialToken { background: theme.secondary, border, highlight },
            },
        }
    }
}

/// What an icon stands for.
#[derive(Clone, Copy, Debug, PartialEq, Eq, Structural)]
pub enum SemanticIcon {
    Add,
    Close,
    Document,
    Settings,
    Search,
    Sidebar,
    TabList,
    Split,
    Folder,
    Swap,
    Separate,
    CloseLeft,
    CloseRight,
    Previous,
    Next,
    Collapse,
    Expand,
    ExternalLink,
    Book,
    Globe,
    User,
    Error,
    Info,
    Terminal,
    Dashboard,
    Loader,
    ThemeLight,
    ThemeDark,
    ZoomOut,
    ZoomIn,
    FitWidth,
    Comments,
    Highlight,
    Copy,
    Check,
    Menu,
}

/// The picture of an icon.
#[derive(Clone, Copy, Debug, PartialEq, Eq, Structural)]
pub enum IconName {
    Plus,
    Close,
    File,
    Settings,
    Search,
    PanelLeft,
    ChevronDown,
    Frame,
    Folder,
    Replace,
    GalleryVerticalEnd,
    PanelLeftClose,
    PanelRightClose,
    ChevronLeft,
    ChevronRight,
    ChevronUp,
    ExternalLink,
    BookOpen,
    Globe,
    CircleUser,
    CircleX,
    Info,
    SquareTerminal,
    LayoutDashboard,
    LoaderCircle,
    Sun,
    Moon,
    Minus,
    Maximize,
    PanelRight,
    Asterisk,
    Copy,
    Check,
    Menu,
}

/// The picture that stands for something.
pub open spec fn picture_of(icon: SemanticIcon) -> IconName {
    match icon {
        SemanticIcon::Add => IconName::Plus,
        SemanticIcon::Close => IconName::Close,
        SemanticIcon::Document => IconName::File,
        SemanticIcon::Settings => IconName::Settings,
        SemanticIcon::Search => IconName::Search,
        SemanticIcon::Sidebar => IconName::PanelLeft,
        SemanticIcon::TabList => IconName::ChevronDown,
        SemanticIcon::Split => IconName::Frame,
        SemanticIcon::Folder => IconName::Folder,
        SemanticIcon::Swap => IconName::Replace,
        SemanticIcon::Separate => IconName::GalleryVerticalEnd,
        SemanticIcon::CloseLeft => IconName::PanelLeftClose,
        SemanticIcon::CloseRight => IconName::PanelRightClose,
        SemanticIcon::Previous => IconName::ChevronLeft,
        SemanticIcon::Next => IconName::ChevronRight,
        SemanticIcon::Collapse => IconName::ChevronUp,
        SemanticIcon::Expand => IconName::ChevronDown,
        SemanticIcon::ExternalLink => IconName::ExternalLink,
        SemanticIcon::Book => IconName::BookOpen,
        SemanticIcon::Globe => IconName::Globe,
        SemanticIcon::User => IconName::CircleUser,
        SemanticIcon::Error => IconName::CircleX,
        SemanticIcon::Info => IconName::Info,
        SemanticIcon::Terminal => IconName::SquareTerminal,
        SemanticIcon::Dashboard => IconName::LayoutDashboard,
        SemanticIcon::Loader => IconName::LoaderCircle,
        SemanticIcon::ThemeLight => IconName::Sun,
        SemanticIcon::ThemeDark => IconName::Moon,
        SemanticIcon::ZoomOut => IconName::Minus,
        SemanticIcon::ZoomIn => IconName::Plus,
        SemanticIcon::FitWidth => IconName::Maximize,
        SemanticIcon::Comments => IconName::PanelRight,
        SemanticIcon::Highlight => IconName::Asterisk,
        SemanticIcon::Copy => IconName::Copy,
        SemanticIcon::Check => IconName::Check,
        SemanticIcon::Menu => IconName::Menu,
    }
}

/// The picture that stands for something.
pub fn semantic_icon(icon: SemanticIcon) -> (name: IconName)
    ensures
        name == picture_of(icon),
{
    match icon {
        SemanticIcon::Add => IconName::Plus,
        SemanticIcon::Close => IconName::Close,
        SemanticIcon::Document => IconName::File,
        SemanticIcon::Settings => IconName::Settings,
        SemanticIcon::Search => IconName::Search,
        SemanticIcon::Sidebar => IconName::PanelLeft,
        SemanticIcon::TabList => IconName::ChevronDown,
        SemanticIcon::Split => IconName::Frame,
        SemanticIcon::Folder => IconName::Folder,
        SemanticIcon::Swap => IconName::Replace,
        SemanticIcon::Separate => IconName::GalleryVerticalEnd,
        SemanticIcon::CloseLeft => IconName::PanelLeftClose,
        SemanticIcon::CloseRight => IconName::PanelRightClose,
        SemanticIcon::Previous => IconName::ChevronLeft,
        SemanticIcon::Next => IconName::ChevronRight,
        SemanticIcon::Collapse => IconName::ChevronUp,
        SemanticIcon::Expand => IconName::ChevronDown,
        SemanticIcon::ExternalLink => IconName::ExternalLink,
        SemanticIcon::Book => IconName::BookOpen,
        SemanticIcon::Globe => IconName::Globe,
        SemanticIcon::User => IconName::CircleUser,
        SemanticIcon::Error => IconName::CircleX,
        SemanticIcon::Info => IconName::Info,
        SemanticIcon::Terminal => IconName::SquareTerminal,
        SemanticIcon::Dashboard => IconName::LayoutDashboard,
        SemanticIcon::Loader => IconName::LoaderCircle,
        SemanticIcon::ThemeLight => IconName::Sun,
        SemanticIcon::ThemeDark => IconName::Moon,
        SemanticIcon::ZoomOut => IconName::Minus,
        SemanticIcon::ZoomIn => IconName::Plus,
        SemanticIcon::FitWidth => IconName::Maximize,
        SemanticIcon::Comments => IconName::PanelRight,
        SemanticIcon::Highlight => IconName::Asterisk,
        SemanticIcon::Copy => IconName::Copy,
        SemanticIcon::Check => IconName::Check,
        SemanticIcon::Menu => IconName::Menu,
    }
}

/// What a user chose is what views get under the name, and with it the materials that are
/// made of it.
pub proof fn law_chosen_colors_are_used(
    theme: ComponentTheme,
    layered: LayeredSurfaces,
    chosen: ColorOverrides,
)
    ensures
        ({
            let tokens = ThemeTokens::taken_from(theme, layered, chosen);
            &&& chosen.surface_chrome matches Some(color) ==> tokens.surface.chrome == color
                && tokens.materials.chrome.background == color
            &&& chosen.surface_canvas matches Some(color) ==> tokens.surface.canvas == color
            &&& chosen.surface_sidebar matches Some(color) ==> tokens.surface.sidebar == color
            &&& chosen.surface_split_gutter matches Some(color) ==> tokens.surface.split_gutter
                == color
            &&& chosen.surface_background matches Some(color) ==> tokens.surface.background
                == color
            &&& chosen.surface_popover matches Some(color) ==> tokens.surface.overlay == color
            &&& chosen.surface_border matches Some(color) ==> tokens.surface.border == color
            &&& chosen.content_primary matches Some(color) ==> tokens.content.primary == color
            &&& chosen.content_secondary matches Some(color) ==> tokens.content.secondary == color
            &&& chosen.content_tertiary matches Some(color) ==> tokens.content.tertiary == color
            &&& chosen.action_accent matches Some(color) ==> tokens.action.accent == color
            &&& tokens.materials.window.border == tokens.surface.border
            &&& tokens.materials.chrome.border == tokens.surface.border
            &&& tokens.materials.surface.border == tokens.surface.border
            &&& tokens.materials.floating.border == tokens.surface.border
            &&& tokens.materials.control.border == tokens.surface.border
            &&& tokens.materials.window.highlight == tokens.content.primary
            &&& tokens.materials.chrome.highlight == tokens.content.primary
            &&& tokens.materials.surface.highlight == tokens.content.primary
            &&& tokens.materials.floating.highlight == tokens.content.primary
            &&& tokens.materials.control.highlight == tokens.content.primary
        }),
{
}

/// Where a user chose nothing views get what the theme has, surfaces with some of its
/// foreground mixed in.
pub proof fn law_other_colors_are_those_of_the_theme(
    theme: ComponentTheme,
    layered: LayeredSurfaces,
    chosen: ColorOverrides,
)
    ensures
        ({
            let tokens = ThemeTokens::taken_from(theme, layered, chosen);
            &&& chosen.surface_chrome is None ==> tokens.surface.chrome == layered.chrome
            &&& chosen.surface_canvas is None ==> tokens.surface.canvas == layered.canvas
            &&& chosen.surface_sidebar is None ==> tokens.surface.sidebar == layered.sidebar
            &&& chosen.surface_split_gutter is None ==> tokens.surface.split_gutter
                == layered.split_gutter
            &&& chosen.surface_background is None ==> tokens.surface.background == theme.background
            &&& chosen.surface_popover is None ==> tokens.surface.overlay == theme.popover
            &&& chosen.surface_border is None ==> tokens.surface.border == theme.border
            &&& chosen.content_primary is None ==> tokens.content.primary == theme.foreground
            &&& chosen.content_secondary is None ==> tokens.content.secondary
                == theme.secondary_foreground
            &&& chosen.content_tertiary is None ==> tokens.content.tertiary
                == theme.muted_foreground
            &&& chosen.action_accent is None ==> tokens.action.accent == theme.primary
            &&& tokens.surface.muted == theme.muted
            &&& tokens.content.on_accent == theme.primary_foreground
            &&& tokens.action.control == theme.secondary
            &&& tokens.action.control_hover == theme.secondary_hover
            &&& tokens.action.control_pressed == theme.secondary_active
            &&& tokens.action.accent_hover == theme.primary_hover
            &&& tokens.action.accent_pressed == theme.primary_active
            &&& tokens.action.accent_soft == theme.accent
            &&& tokens.action.accent_soft_hover == theme.list_hover
            &&& tokens.action.accent_border == theme.list_active_border
            &&& tokens.status.danger == theme.danger
            &&& tokens.status.danger_soft == theme.danger_soft
            &&& tokens.status.warning == theme.warning
            &&& tokens.status.success == theme.green
            &&& tokens.status.info == theme.blue
            &&& tokens.selection == theme.selection
            &&& tokens.materials.window.background == theme.background
            &&& tokens.materials.surface.background == theme.background
            &&& tokens.materials.floating.background == theme.popover
            &&& tokens.materials.control.background == theme.secondary
        }),
{
}

/// No two things have the same picture, but to add and to zoom in, which are a plus, and a
/// list of tabs and what expands, which point down. What has a direction points that way.
pub proof fn law_pictures_tell_things_apart(a: SemanticIcon, b: SemanticIcon)
    ensures
        picture_of(a) == picture_of(b) && a != b ==> {
            ||| (a is Add || a is ZoomIn) && (b is Add || b is ZoomIn)
            ||| (a is TabList || a is Expand) && (b is TabList || b is Expand)
        },
        picture_of(SemanticIcon::Previous) is ChevronLeft,
        picture_of(SemanticIcon::Next) is ChevronRight,
        picture_of(SemanticIcon::Collapse) is ChevronUp,
        picture_of(SemanticIcon::Expand) is ChevronDown,
        picture_of(SemanticIcon::CloseLeft) is PanelLeftClose,
        picture_of(SemanticIcon::CloseRight) is PanelRightClose,
        picture_of(SemanticIcon::Sidebar) is PanelLeft,
        picture_of(SemanticIcon::Comments) is PanelRight,
        picture_of(SemanticIcon::ZoomIn) is Plus,
        picture_of(SemanticIcon::ZoomOut) is Minus,
        picture_of(SemanticIcon::ThemeLight) is Sun,
        picture_of(SemanticIcon::ThemeDark) is Moon,
        picture_of(SemanticIcon::Close) is Close,
        picture_of(SemanticIcon::Check) is Check,
        picture_of(SemanticIcon::Error) is CircleX,
        picture_of(SemanticIcon::Search) is Search,
        picture_of(SemanticIcon::Copy) is Copy,
        picture_of(SemanticIcon::Menu) is Menu,
        picture_of(SemanticIcon::Settings) is Settings,
        picture_of(SemanticIcon::Info) is Info,
        picture_of(SemanticIcon::Globe) is Globe,
        picture_of(SemanticIcon::Folder) is Folder,
        picture_of(SemanticIcon::ExternalLink) is ExternalLink,
        picture_of(SemanticIcon::Document) is File,
        picture_of(SemanticIcon::FitWidth) is Maximize,
{
}

} // verus!
