use key_pdf::float_bits::FloatBits;
use key_pdf::ui::control_bar::{
    collapse_order, modes_after, modes_that_fit, BarControl, Collapse, ControlBarDisplayMode,
};
use key_pdf::ui::style::{
    corner_radii, signed_radius, ChromeButtonStyle, CornerShape, CornerSpec, ElevationRole,
    RadiusRole, RadiusScale, ShadowToken,
};
use key_pdf::ui::tabs::{
    shows_separator, title_overflow, SegmentEmphasis, TabDragPayload, TabPresentation,
};
use key_pdf::ui::theme::{
    semantic_icon, ColorOverrides, ComponentTheme, Hsla, IconName, LayeredSurfaces, SemanticIcon,
    ThemeTokens,
};
use key_pdf::ui::transition::{FrameStep, UnitTransition};

fn bits(value: f32) -> FloatBits {
    FloatBits(value.to_bits())
}

fn float(value: FloatBits) -> f32 {
    f32::from_bits(value.0)
}

/// A control with a width for each mode.
#[derive(Clone, Copy)]
struct Item {
    control: BarControl,
    widths: [f32; 3],
    takes_the_rest: bool,
}

fn item(priority: u16) -> Item {
    Item {
        control: BarControl {
            visible: true,
            expanded_input: false,
            priority,
        },
        widths: [100.0, 64.0, 32.0],
        takes_the_rest: false,
    }
}

fn open_input(widths: [f32; 3]) -> Item {
    Item {
        control: BarControl {
            visible: true,
            expanded_input: true,
            priority: 1,
        },
        widths,
        takes_the_rest: false,
    }
}

fn width(item: &Item, mode: ControlBarDisplayMode) -> f32 {
    if item.takes_the_rest || !item.control.visible {
        0.0
    } else {
        item.widths[mode.index()]
    }
}

fn measured(items: &[Item], modes: &[ControlBarDisplayMode]) -> f32 {
    items
        .iter()
        .zip(modes)
        .map(|(item, mode)| width(item, *mode))
        .sum()
}

/// Goes along the order until everything fits.
fn solve(items: &[Item], available: f32, gap: f32) -> Vec<(ControlBarDisplayMode, f32)> {
    let visible = items.iter().filter(|item| item.control.visible).count();
    let budget = (available - visible.saturating_sub(1) as f32 * gap).max(0.0);
    let controls: Vec<BarControl> = items.iter().map(|item| item.control).collect();
    let steps = collapse_order(&controls);
    let widths: Vec<FloatBits> = (0..=steps.len())
        .map(|count| measured(items, &modes_after(&controls, &steps, count)))
        .map(|width| FloatBits(width.to_bits()))
        .collect();
    let modes = modes_that_fit(&controls, &steps, &widths, FloatBits(budget.to_bits()));
    let rest = (budget - measured(items, &modes)).max(0.0);
    items
        .iter()
        .zip(modes)
        .map(|(item, mode)| {
            let width = if item.takes_the_rest {
                rest
            } else {
                width(item, mode)
            };
            (mode, width)
        })
        .collect()
}

#[test]
fn lower_priority_items_collapse_first() {
    let layout = solve(&[item(10), item(90)], 168.0, 4.0);
    assert_eq!(layout[0].0, ControlBarDisplayMode::Compact);
    assert_eq!(layout[1].0, ControlBarDisplayMode::Full);
}

#[test]
fn an_expanded_input_keeps_its_requested_width() {
    let items = [open_input([280.0, 180.0, 32.0]), item(80), item(2)];
    let layout = solve(&items, 360.0, 4.0);
    assert_eq!(layout[0].0, ControlBarDisplayMode::Full);
    assert_eq!(layout[0].1, 280.0);
    assert_eq!(layout[1].0, ControlBarDisplayMode::Icon);
}

#[test]
fn an_expanded_input_compacts_only_after_other_controls() {
    let layout = solve(&[open_input([280.0, 180.0, 96.0]), item(80)], 220.0, 4.0);
    assert_eq!(layout[0].0, ControlBarDisplayMode::Compact);
    assert_eq!(layout[1].0, ControlBarDisplayMode::Icon);
}

#[test]
fn hidden_items_consume_no_width() {
    let mut hidden = item(1);
    hidden.control.visible = false;
    let layout = solve(&[hidden], 0.0, 4.0);
    assert_eq!(layout[0].1, 0.0);
    assert!(collapse_order(&vec![hidden.control]).is_empty());
}

#[test]
fn max_width_item_receives_the_space_left_by_intrinsic_controls() {
    let mut location = item(1);
    location.takes_the_rest = true;
    let layout = solve(&[item(90), location, item(90)], 300.0, 4.0);
    assert_eq!(layout[0].1, 100.0);
    assert_eq!(layout[2].1, 100.0);
    assert_eq!(layout[1].1, 92.0);
}

#[test]
fn open_fields_give_way_after_everything_else() {
    let controls: Vec<BarControl> = [open_input([1.0; 3]), item(7), item(3), item(7)]
        .iter()
        .map(|item| item.control)
        .collect();
    let steps = collapse_order(&controls);
    let order: Vec<usize> = steps.iter().map(|step| step.index).collect();
    assert_eq!(order, vec![2, 1, 3, 2, 1, 3, 0, 0]);
    assert_eq!(
        steps[0],
        Collapse {
            index: 2,
            from: ControlBarDisplayMode::Full,
            to: ControlBarDisplayMode::Compact,
        }
    );
    assert_eq!(ControlBarDisplayMode::Icon.next(), ControlBarDisplayMode::Icon);
}

#[test]
fn gpui_corner_encoding_preserves_convex_square_and_concave_intent() {
    let radius = |shape| float(signed_radius(shape));
    assert_eq!(radius(CornerShape::Convex { radius: bits(12.0) }), 12.0);
    assert_eq!(radius(CornerShape::Square), 0.0);
    assert_eq!(radius(CornerShape::Concave { radius: bits(8.0) }), -8.0);
    let radii = corner_radii(CornerSpec {
        top_left: CornerShape::Square,
        top_right: CornerShape::Convex { radius: bits(1.0) },
        bottom_right: CornerShape::Convex { radius: bits(2.0) },
        bottom_left: CornerShape::Concave { radius: bits(3.0) },
    });
    assert_eq!(radii.map(float), [0.0, 1.0, 2.0, -3.0]);
}

#[test]
fn roles_are_resolved_by_a_design() {
    let shadow = |y: f32| ShadowToken {
        opacity: bits(0.5),
        y: bits(y),
        blur: bits(4.0),
        spread: bits(0.0),
    };
    assert_eq!(
        ElevationRole::Surface.resolve(shadow(1.0), shadow(2.0)),
        shadow(1.0)
    );
    assert_eq!(
        ElevationRole::Floating.resolve(shadow(1.0), shadow(2.0)),
        shadow(2.0)
    );
    let scale = RadiusScale {
        small: bits(1.0),
        medium: bits(2.0),
        large: bits(3.0),
        pill: bits(99.0),
    };
    assert_eq!(RadiusRole::Small.resolve(&scale), bits(1.0));
    assert_eq!(RadiusRole::Pill.resolve(&scale), bits(99.0));
    assert_ne!(
        ChromeButtonStyle::Bare.colors(),
        ChromeButtonStyle::Primary.colors()
    );
}

#[test]
fn compound_tab_presentation_keeps_typed_child_identity_and_bounds_selection() {
    let tab = TabPresentation::new("First".into(), "p 1/2".into())
        .view(41)
        .split(42, "Second".into(), "p 2/2".into(), 9)
        .segment_transition(Some(0), bits(0.35));
    assert_eq!(tab.view, 41);
    assert_eq!(tab.active_segment, 1);
    assert_eq!(tab.outgoing_segment, Some(0));
    assert!((float(tab.segment_transition) - 0.35).abs() < f32::EPSILON);
    let second = tab.secondary.expect("split builder adds a second segment");
    assert_eq!(second.view, 42);
    assert_eq!(second.title, "Second");
}

#[test]
fn tabs_show_which_half_has_the_focus() {
    let tab = TabPresentation::new("First".into(), "p 1/2".into())
        .split(42, "Second".into(), "p 2/2".into(), 1)
        .segment_transition(Some(0), bits(f32::NAN))
        .recently_moved(true)
        .draggable(TabDragPayload::new(1, 2, 3, "First".into()));
    assert_eq!(float(tab.segment_transition), 1.0);
    assert_eq!(tab.emphasis(true, 1), SegmentEmphasis::Incoming);
    assert_eq!(tab.emphasis(true, 0), SegmentEmphasis::Outgoing);
    assert_eq!(tab.emphasis(false, 1), SegmentEmphasis::Plain);
    assert_eq!(tab.drag.map(|payload| payload.view), Some(3));
    assert!(shows_separator(0, 3, 2));
    assert!(!shows_separator(1, 3, 2));
    assert!(!shows_separator(2, 3, 0));
    assert_eq!(title_overflow("short"), 0);
    assert_eq!(title_overflow(&"\u{e9}".repeat(40)), 9);
}

const DEFAULT_RESPONSE: f32 = 22.0;
const SETTLE_EPSILON: f32 = 0.001;

fn is_animating(transition: &UnitTransition) -> bool {
    (float(transition.value()) - float(transition.target())).abs() > SETTLE_EPSILON
}

/// One frame, with the smoothing of a view.
fn advance(transition: &mut UnitTransition, elapsed: f32, response: f32) -> bool {
    match transition.judge_frame(
        is_animating(transition),
        bits(elapsed),
        Some(bits(response)),
    ) {
        FrameStep::Settle => {
            transition.settle();
            false
        }
        FrameStep::Wait => true,
        FrameStep::Move => {
            let elapsed = elapsed.clamp(1.0 / 240.0, 0.05);
            let blend = 1.0 - (-response * elapsed).exp();
            let (value, target) = (float(transition.value()), float(transition.target()));
            let next = (value + (target - value) * blend).clamp(0.0, 1.0);
            transition.move_to(bits(next), (target - next).abs() <= SETTLE_EPSILON);
            is_animating(transition)
        }
    }
}

#[test]
fn construction_and_mutation_never_escape_the_unit_interval() {
    assert_eq!(float(UnitTransition::new(bits(-10.0)).value()), 0.0);
    assert_eq!(float(UnitTransition::new(bits(10.0)).value()), 1.0);
    assert_eq!(float(UnitTransition::new(bits(f32::NAN)).value()), 0.0);

    let mut transition = UnitTransition::hidden();
    transition.set_target(bits(3.0));
    assert_eq!(float(transition.target()), 1.0);
    transition.snap_to(bits(f32::INFINITY));
    assert_eq!(transition, UnitTransition::hidden());
    assert_eq!(transition, UnitTransition::default());
    assert_eq!(UnitTransition::visible(), UnitTransition::new(bits(1.0)));
}

#[test]
fn transition_settles_in_both_directions_and_can_reverse_mid_flight() {
    let mut transition = UnitTransition::hidden();
    transition.set_visible(true);
    let mut prior = float(transition.value());
    for _ in 0..240 {
        advance(&mut transition, 1.0 / 60.0, DEFAULT_RESPONSE);
        assert!(float(transition.value()) >= prior);
        assert!((0.0..=1.0).contains(&float(transition.value())));
        prior = float(transition.value());
    }
    assert_eq!(float(transition.value()), 1.0);
    assert!(!is_animating(&transition));

    transition.set_visible(false);
    advance(&mut transition, 1.0 / 60.0, 24.0);
    let closing_value = float(transition.value());
    assert!(closing_value < 1.0);
    transition.toggle();
    advance(&mut transition, 1.0 / 60.0, 24.0);
    assert!(float(transition.value()) > closing_value);
}

#[test]
fn invalid_timing_does_not_corrupt_or_advance_state() {
    let mut transition = UnitTransition::hidden();
    transition.set_visible(true);
    for elapsed in [0.0, -1.0, f32::NAN, f32::INFINITY] {
        assert!(advance(&mut transition, elapsed, DEFAULT_RESPONSE));
        assert_eq!(float(transition.value()), 0.0);
    }
    for response in [0.0, -1.0, f32::NAN, f32::INFINITY] {
        assert!(advance(&mut transition, 1.0 / 60.0, response));
        assert_eq!(float(transition.value()), 0.0);
    }
    assert_eq!(
        transition.judge_frame(true, bits(0.1), None),
        FrameStep::Settle
    );
}

fn color(lightness: f32) -> Hsla {
    Hsla {
        hue: bits(0.0),
        saturation: bits(0.0),
        lightness: bits(lightness),
        alpha: bits(1.0),
    }
}

fn theme(background: f32, foreground: f32) -> ComponentTheme {
    let (back, front) = (color(background), color(foreground));
    ComponentTheme {
        title_bar: back,
        background: back,
        foreground: front,
        popover: color(background * 0.9),
        border: front,
        muted: back,
        secondary: back,
        secondary_foreground: front,
        secondary_hover: back,
        secondary_active: back,
        muted_foreground: front,
        primary: color(foreground * 0.5 + 0.2),
        primary_foreground: back,
        primary_hover: back,
        primary_active: back,
        accent: back,
        list_hover: back,
        list_active_border: back,
        danger: color(0.4),
        danger_soft: color(0.41),
        warning: color(0.5),
        green: color(0.6),
        blue: color(0.7),
        selection: color(0.8),
    }
}

fn layered(theme: &ComponentTheme) -> LayeredSurfaces {
    LayeredSurfaces {
        chrome: theme.title_bar,
        canvas: theme.background,
        sidebar: theme.background,
        split_gutter: theme.background,
    }
}

fn nothing_chosen() -> ColorOverrides {
    ColorOverrides {
        surface_chrome: None,
        surface_canvas: None,
        surface_sidebar: None,
        surface_split_gutter: None,
        surface_background: None,
        surface_popover: None,
        surface_border: None,
        content_primary: None,
        content_secondary: None,
        content_tertiary: None,
        action_accent: None,
    }
}

#[test]
fn semantic_tokens_track_light_and_dark_component_themes() {
    let light = theme(0.95, 0.1);
    let dark = theme(0.1, 0.95);
    let light_tokens = ThemeTokens::from_theme(&light, &layered(&light), &nothing_chosen());
    let dark_tokens = ThemeTokens::from_theme(&dark, &layered(&dark), &nothing_chosen());

    assert_eq!(light_tokens.surface.background, light.background);
    assert_eq!(light_tokens.surface.overlay, light.popover);
    assert_eq!(dark_tokens.surface.background, dark.background);
    assert_eq!(light_tokens.content.primary, light.foreground);
    assert_eq!(dark_tokens.action.accent, dark.primary);
    assert_eq!(light_tokens.status.danger, light.danger);
    assert_ne!(
        light_tokens.surface.background,
        dark_tokens.surface.background
    );
    assert_ne!(light_tokens.content.primary, dark_tokens.content.primary);
}

#[test]
fn required_visual_tokens_are_not_fully_transparent() {
    for theme in [theme(0.95, 0.1), theme(0.1, 0.95)] {
        let tokens = ThemeTokens::from_theme(&theme, &layered(&theme), &nothing_chosen());
        for token in [
            tokens.surface.background,
            tokens.surface.border,
            tokens.content.primary,
            tokens.action.accent,
            tokens.status.danger,
        ] {
            assert!(float(token.alpha) > 0.0);
        }
    }
}

#[test]
fn typed_semantic_color_overrides_replace_theme_roles() {
    let theme = theme(0.95, 0.1);
    let mut chosen = nothing_chosen();
    chosen.action_accent = Some(Hsla {
        alpha: bits(0.66),
        ..color(0.45)
    });
    let tokens = ThemeTokens::from_theme(&theme, &layered(&theme), &chosen);
    assert_eq!(float(tokens.action.accent.alpha), 0.66);
    assert_ne!(tokens.action.accent, theme.primary);
}

#[test]
fn icons_stand_for_what_they_mean() {
    assert_eq!(semantic_icon(SemanticIcon::Add), IconName::Plus);
    assert_eq!(semantic_icon(SemanticIcon::TabList), IconName::ChevronDown);
    assert_eq!(semantic_icon(SemanticIcon::Highlight), IconName::Asterisk);
}

#[test]
fn no_control_becomes_smaller_than_it_has_to() {
    let controls = vec![item(1).control, item(2).control];
    let steps = collapse_order(&controls);
    let widths = |totals: [f32; 5]| totals.map(bits).to_vec();
    let modes = |totals: [f32; 5], room: f32| {
        modes_that_fit(&controls, &steps, &widths(totals), bits(room))
    };
    let full = ControlBarDisplayMode::Full;
    let compact = ControlBarDisplayMode::Compact;
    let icon = ControlBarDisplayMode::Icon;
    let totals = [200.0, 150.0, 100.0, 80.0, 60.0];
    assert_eq!(modes(totals, 200.0), vec![full, full]);
    assert_eq!(modes(totals, 199.0), vec![compact, full]);
    assert_eq!(modes(totals, 100.0), vec![compact, compact]);
    assert_eq!(modes(totals, 10.0), vec![icon, icon]);
    assert_eq!(modes([f32::NAN; 5], 10.0), vec![full, full]);
}
