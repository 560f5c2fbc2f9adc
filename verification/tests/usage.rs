use term_string::color::{BLUE, GREEN, RED, WHITE};
use term_string::{Attr, TermString, TermStyle};

#[test]
fn flags_are_set_and_unset() {
    let mut style = TermStyle::bold();
    assert!(style.has_bold());
    style.unset_bold();
    assert!(!style.has_bold());
    style.add_reverse();
    assert!(style.has_reverse());
    assert_eq!(style.with_blink().without_reverse(), TermStyle::blink());
}

#[test]
fn payloads_are_told_apart() {
    let mut style = TermStyle::underline(true);
    assert!(style.has_underline());
    assert!(style.has_exact_underline(true));
    assert!(!style.has_exact_underline(false));
    style.unset_exact_underline(false);
    assert!(style.has_underline());
    style.unset_underline();
    assert!(!style.has_underline());
}

#[test]
fn colours_are_set_and_unset() {
    let mut style = TermStyle::fg(BLUE);
    style += TermStyle::bg(WHITE);
    assert!(style.has_fg());
    assert!(style.has_bg());
    assert!(style.has_exact_fg(BLUE));
    assert!(style.has_exact_bg(WHITE));
    assert!(!style.has_exact_fg(RED));
    assert!(!style.has_exact_bg(GREEN));
    style.unset_exact_fg(RED);
    style.unset_exact_bg(GREEN);
    assert!(style.has_exact_fg(BLUE));
    assert!(style.has_exact_bg(WHITE));
    style.unset_fg();
    style.unset_bg();
    assert!(!style.has_fg());
    assert!(!style.has_bg());
    assert_eq!(style, TermStyle::default());
}

#[test]
fn exact_and_variant_attributes() {
    let style = TermStyle::underline(true);
    assert!(style.has_exact_attr(Attr::Underline(true)));
    assert!(!style.has_exact_attr(Attr::Underline(false)));
    assert!(style.has_variant_attr(Attr::Underline(true)));
    assert!(style.has_variant_attr(Attr::Underline(false)));

    let mut style = TermStyle::underline(true);
    style.unset_exact_attr(Attr::Underline(false));
    assert_ne!(style, TermStyle::default());
    style.unset_exact_attr(Attr::Underline(true));
    assert_eq!(style, TermStyle::default());
}

#[test]
fn or_and_add_of_one_attribute() {
    let mut style = TermStyle::default();
    style.or_attr(Attr::BackgroundColor(RED));
    assert!(style.has_exact_bg(RED));
    style.or_attr(Attr::BackgroundColor(GREEN));
    assert!(style.has_exact_bg(RED));

    let mut style = TermStyle::default();
    style.add_attr(Attr::BackgroundColor(RED));
    assert!(style.has_exact_bg(RED));
    style.add_attr(Attr::BackgroundColor(GREEN));
    assert!(style.has_exact_bg(GREEN));

    let mut style = TermStyle::italic(true);
    style.or_italic(false);
    assert!(style.has_exact_italic(true));
    style.add_italic(false);
    assert!(style.has_exact_italic(false));
    assert_eq!(style.with_ored_standout(true).with_ored_standout(false), style.with_standout(true));
}

#[test]
fn styles_from_lists() {
    let st1 = TermStyle::default()
        .with_attr(Attr::Bold)
        .with_attr(Attr::Underline(true));
    let st2 = TermStyle::default().with_attrs(&[Attr::Bold, Attr::Underline(true)]);
    let st3 = TermStyle::default().with_style(TermStyle::from([Attr::Bold, Attr::Underline(true)]));
    assert_eq!(st1, st2);
    assert_eq!(st1, st3);
    assert!(st1.has_exact_style(TermStyle::from([Attr::Bold, Attr::Underline(true)])));
    assert!(st2.has_exact_style(st1));
    assert_eq!(
        st1.with_ored_attr(Attr::Underline(false)).without_variant_attr(Attr::Bold),
        TermStyle::underline(true)
    );
    assert_eq!(st1.without_exact_attr(Attr::Underline(false)), st1);
}

#[test]
fn lengths_and_texts_of_strings() {
    let bold = TermStyle::bold();
    let underline = TermStyle::underline(true);
    let mut ts = TermString::new(bold, "some bold text ");
    ts += TermString::new(underline, "and some underlined text.");
    assert_eq!(ts.len(), 40);
    assert_eq!(ts.as_string(), "some bold text and some underlined text.");

    let mut ts = TermString::new(bold, "");
    assert!(ts.is_empty());
    ts += "this is bold.";
    assert!(!ts.is_empty());
    assert_eq!(ts.elements.len(), 1);
    assert_eq!(ts.elements[0].style, bold);
}

#[test]
fn text_inherits_and_strings_bring_their_style() {
    let style1 = TermStyle::bold() + TermStyle::fg(GREEN) + TermStyle::bg(RED);
    let style2 = TermStyle::underline(true);
    let mut ts = TermString::new(style1, "style");
    ts += "1";
    ts += TermString::from(" : ");
    ts += TermString::new(style2, "This is text with style 2");
    assert_eq!(ts.elements.len(), 3);
    assert_eq!(ts.elements[0].text, "style1");
    assert_eq!(ts.elements[0].style, style1);
    assert_eq!(ts.elements[1].text, " : ");
    assert_eq!(ts.elements[1].style, TermStyle::default());
    assert_eq!(ts.elements[2].style, style2);

    let mut ts = TermString::new(TermStyle::bold(), "some bold text ");
    ts.append_term_str(TermString::from("and some un-styled text."));
    assert_eq!(ts.elements.len(), 2);
    assert_eq!(ts.elements[1].style, TermStyle::default());
}

#[test]
fn a_style_for_the_whole_string() {
    let fg_bg = TermStyle::bg(RED) + TermStyle::fg(WHITE);
    let underline = TermStyle::underline(true);
    let mut ts = TermString::new(fg_bg, "fg bg");
    ts += TermString::new(underline, " underline");

    let mut set = ts.clone();
    set.set_style(TermStyle::bold());
    assert_eq!(set.elements[0].style, TermStyle::bold());
    assert_eq!(set.elements[1].style, TermStyle::bold());

    let mut ored = ts.clone();
    ored.or_style(TermStyle::bg(BLUE));
    assert_eq!(ored.elements[0].style, fg_bg);
    assert_eq!(ored.elements[1].style, underline + TermStyle::bg(BLUE));

    ts.add_style(TermStyle::bg(BLUE));
    assert_eq!(ts.elements[0].style, TermStyle::bg(BLUE) + TermStyle::fg(WHITE));
    assert_eq!(ts.elements[1].style, underline + TermStyle::bg(BLUE));
}
