use term_string::color::{BLUE, GREEN, MAGENTA, RED, WHITE};
use term_string::style::model::StyleOp;
use term_string::{Attr, AttrKind, TermStyle};

#[test]
fn kinds_of_attributes() {
    assert_eq!(Attr::Bold.kind(), AttrKind::Bold);
    assert_eq!(Attr::Underline(true).kind(), AttrKind::Underline);
    assert_eq!(Attr::ForegroundColor(RED).kind(), AttrKind::ForegroundColor);
    assert!(Attr::Italic(true).same_kind(Attr::Italic(false)));
    assert!(Attr::ForegroundColor(RED).same_kind(Attr::ForegroundColor(BLUE)));
    assert!(!Attr::ForegroundColor(RED).same_kind(Attr::BackgroundColor(RED)));
    assert!(!Attr::Bold.same_kind(Attr::Dim));
}

#[test]
fn palette_is_that_of_the_terminal_library() {
    assert_eq!(term_string::color::BLACK, 0);
    assert_eq!(RED, 1);
    assert_eq!(GREEN, 2);
    assert_eq!(BLUE, 4);
    assert_eq!(MAGENTA, 5);
    assert_eq!(WHITE, 7);
    assert_eq!(term_string::color::BRIGHT_WHITE, 15);
}

#[test]
fn add_hides_other_payloads_of_the_kind() {
    let mut style = TermStyle::default();
    style.add_attr(Attr::Underline(true));
    assert!(style.has_exact_attr(Attr::Underline(true)));
    assert!(!style.has_exact_attr(Attr::Underline(false)));
    assert!(style.has_variant_attr(Attr::Underline(false)));

    let mut style = TermStyle::bold();
    style.add_attr(Attr::ForegroundColor(GREEN));
    assert!(!style.has_exact_attr(Attr::ForegroundColor(RED)));
    assert!(style.has_variant_attr(Attr::ForegroundColor(RED)));
    assert!(!style.has_variant_attr(Attr::BackgroundColor(GREEN)));
}

#[test]
fn or_keeps_the_first_value() {
    let mut style = TermStyle::default();
    style.or_attr(Attr::BackgroundColor(RED));
    style.or_attr(Attr::BackgroundColor(GREEN));
    assert!(style.has_exact_attr(Attr::BackgroundColor(RED)));
    assert!(!style.has_exact_attr(Attr::BackgroundColor(GREEN)));
    assert_eq!(style.attrs(), vec![Attr::BackgroundColor(RED)]);
}

#[test]
fn or_leaves_a_value_that_was_held() {
    let mut style = TermStyle::italic(false);
    style.or_attr(Attr::Italic(true));
    style.or_attr(Attr::Italic(true));
    assert!(style.has_exact_attr(Attr::Italic(false)));
    assert!(!style.has_exact_attr(Attr::Italic(true)));
}

#[test]
fn add_keeps_the_last_value() {
    let mut style = TermStyle::default();
    style.add_attr(Attr::BackgroundColor(RED));
    style.add_attr(Attr::BackgroundColor(GREEN));
    assert!(style.has_exact_attr(Attr::BackgroundColor(GREEN)));
    assert!(!style.has_exact_attr(Attr::BackgroundColor(RED)));
    assert_eq!(style.attrs(), vec![Attr::BackgroundColor(GREEN)]);
}

#[test]
fn equality_ignores_the_order_of_additions() {
    let mut one = TermStyle::default();
    one.add_attr(Attr::Bold);
    one.add_attr(Attr::Underline(true));
    let mut other = TermStyle::default();
    other.add_attr(Attr::Underline(true));
    other.add_attr(Attr::Bold);
    assert!(one.eq_style(other));
    assert!(other.eq_style(one));
    assert_eq!(one, other);
    assert_eq!(one.attrs(), vec![Attr::Bold, Attr::Underline(true)]);
    assert_eq!(other.attrs(), vec![Attr::Underline(true), Attr::Bold]);
}

#[test]
fn equality_tells_payloads_and_subsets_apart() {
    let one = TermStyle::bold() + TermStyle::underline(true);
    let more = one + TermStyle::reverse();
    assert!(one.eq_style(TermStyle::from([Attr::Underline(true), Attr::Bold])));
    assert!(!more.eq_style(one));
    assert!(!one.eq_style(more));
    assert!(!one.eq_style(TermStyle::from([Attr::Underline(false), Attr::Bold])));
    assert!(one.eq_variant_style(TermStyle::from([Attr::Underline(false), Attr::Bold])));
    assert!(!one.eq_variant_style(more));
    assert!(TermStyle::default().eq_style(TermStyle::default()));
}

#[test]
fn or_merge_keeps_and_add_merge_overwrites() {
    let style2 = TermStyle::fg(WHITE) | TermStyle::underline(true) | TermStyle::bg(BLUE);
    let ored = style2 | TermStyle::bg(MAGENTA);
    assert!(ored.has_exact_bg(BLUE));
    assert!(!ored.has_exact_bg(MAGENTA));
    assert_eq!(ored, style2);
    let added = style2 + TermStyle::bg(MAGENTA);
    assert!(added.has_exact_bg(MAGENTA));
    assert!(!added.has_exact_bg(BLUE));
    assert!(added.has_exact_fg(WHITE));
    assert!(added.has_exact_underline(true));
}

#[test]
fn subtraction_removes_exact_matches_only() {
    let style = TermStyle::bold() | TermStyle::fg(RED) | TermStyle::italic(true);
    let less = style - (TermStyle::fg(GREEN) | TermStyle::italic(true) | TermStyle::dim());
    assert!(less.has_exact_fg(RED));
    assert!(!less.has_italic());
    assert!(less.has_bold());
    assert_eq!(less, TermStyle::bold() | TermStyle::fg(RED));
}

#[test]
fn a_freed_slot_is_taken_first() {
    let mut style = TermStyle::bold() | TermStyle::dim() | TermStyle::blink();
    style.unset_dim();
    assert_eq!(style.attrs(), vec![Attr::Bold, Attr::Blink]);
    style.add_attr(Attr::Secure);
    assert_eq!(style.attrs(), vec![Attr::Bold, Attr::Secure, Attr::Blink]);
    style.add_attr(Attr::Reverse);
    assert_eq!(
        style.attrs(),
        vec![Attr::Bold, Attr::Secure, Attr::Blink, Attr::Reverse]
    );
}

#[test]
fn an_overwritten_attribute_keeps_its_slot() {
    let mut style = TermStyle::fg(RED) | TermStyle::bold();
    style.add_fg(GREEN);
    assert_eq!(style.attrs(), vec![Attr::ForegroundColor(GREEN), Attr::Bold]);
}

#[test]
fn every_kind_fits_at_once() {
    let all = [
        Attr::Bold,
        Attr::Dim,
        Attr::Italic(true),
        Attr::Underline(true),
        Attr::Blink,
        Attr::Standout(true),
        Attr::Reverse,
        Attr::Secure,
        Attr::ForegroundColor(RED),
        Attr::BackgroundColor(BLUE),
    ];
    let mut style = TermStyle::from(all);
    assert_eq!(style.attrs(), all.to_vec());
    style.add_attr(Attr::BackgroundColor(GREEN));
    style.add_attr(Attr::Italic(false));
    assert_eq!(style.attrs().len(), 10);
    assert!(style.has_exact_bg(GREEN));
    assert!(style.has_exact_italic(false));
    style.reset();
    assert_eq!(style.attrs(), Vec::<Attr>::new());
    assert_eq!(style, TermStyle::default());
}

#[test]
fn lists_apply_in_their_order() {
    let style = TermStyle::from([Attr::Underline(true), Attr::Bold, Attr::Underline(false)]);
    assert_eq!(style.attrs(), vec![Attr::Underline(false), Attr::Bold]);
    let from_slice = TermStyle::from(&[Attr::Underline(true), Attr::Bold][..]);
    assert_eq!(from_slice.attrs(), vec![Attr::Underline(true), Attr::Bold]);

    let ored = TermStyle::default().with_ored_attrs(&[Attr::Underline(true), Attr::Underline(false)]);
    assert_eq!(ored.attrs(), vec![Attr::Underline(true)]);

    let mut less = TermStyle::bold() | TermStyle::underline(true) | TermStyle::fg(RED);
    less.unset_exact_attrs(&[Attr::Underline(false), Attr::Bold]);
    assert_eq!(less, TermStyle::underline(true) | TermStyle::fg(RED));
    less.unset_variant_attrs(&[Attr::Underline(false), Attr::ForegroundColor(BLUE)]);
    assert_eq!(less, TermStyle::default());

    let style = TermStyle::bold() | TermStyle::fg(RED);
    assert_eq!(style.without_exact_attrs(&[Attr::ForegroundColor(BLUE)]), style);
    assert_eq!(
        style.without_variant_attrs(&[Attr::ForegroundColor(BLUE)]),
        TermStyle::bold()
    );
}

#[test]
fn containment_of_styles() {
    let style = TermStyle::bold() | TermStyle::underline(true) | TermStyle::fg(RED);
    assert!(style.has_exact_style(TermStyle::bold() | TermStyle::fg(RED)));
    assert!(style.has_exact_style(TermStyle::default()));
    assert!(!style.has_exact_style(TermStyle::bold() | TermStyle::fg(BLUE)));
    assert!(style.has_variant_style(TermStyle::bold() | TermStyle::fg(BLUE)));
    assert!(!style.has_variant_style(TermStyle::bg(RED)));
    assert!(!TermStyle::default().has_exact_style(TermStyle::bold()));
}

#[test]
fn one_attribute_alone() {
    let style = TermStyle::standout(true);
    assert_eq!(style.attrs(), vec![Attr::Standout(true)]);
    assert_eq!(style, TermStyle::from([Attr::Standout(true)]));
    assert!(style.has_standout());
    assert!(!style.has_exact_standout(false));
    assert_eq!(TermStyle::blink().attrs(), vec![Attr::Blink]);
}

#[test]
fn operations_are_named_apart() {
    assert_ne!(StyleOp::Add, StyleOp::Or);
    assert_ne!(StyleOp::UnsetExact, StyleOp::UnsetVariant);
}
