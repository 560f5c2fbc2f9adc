use term_string::color::{GREEN, RED};
use term_string::{TermString, TermStringElement, TermStyle};

fn texts(string: &TermString) -> Vec<String> {
    string.elements.iter().map(|e| e.text.clone()).collect()
}

#[test]
fn same_style_joins_to_one_run() {
    let style = TermStyle::bold() | TermStyle::fg(GREEN);
    let mut string = TermString::new(style, "x");
    string.append(TermString::new(style, "y"));
    assert_eq!(string.elements.len(), 1);
    assert_eq!(string.elements[0].text, "xy");
    assert_eq!(string.elements[0].style, style);
}

#[test]
fn other_style_starts_a_run() {
    let style = TermStyle::bold() | TermStyle::fg(GREEN);
    let style2 = TermStyle::bold() | TermStyle::fg(RED);
    let mut string = TermString::new(style, "x");
    string.append(TermString::new(style2, "z"));
    assert_eq!(string.elements.len(), 2);
    assert_eq!(texts(&string), vec!["x", "z"]);
    assert_eq!(string.elements[0].style, style);
    assert_eq!(string.elements[1].style, style2);
}

#[test]
fn styles_that_differ_in_order_only_join() {
    let one = TermStyle::bold() | TermStyle::underline(true);
    let other = TermStyle::underline(true) | TermStyle::bold();
    let string = TermString::new(one, "a") + TermString::new(other, "b");
    assert_eq!(texts(&string), vec!["ab"]);
    assert_eq!(string.elements[0].style.attrs(), one.attrs());
}

#[test]
fn only_the_head_of_the_other_string_joins() {
    let bold = TermStyle::bold();
    let dim = TermStyle::dim();
    let other = TermString {
        elements: vec![
            TermStringElement::new(bold, "b"),
            TermStringElement::new(bold, "c"),
            TermStringElement::new(dim, "d"),
            TermStringElement::new(dim, "e"),
            TermStringElement::new(bold, "f"),
        ],
    };
    let string = TermString::new(bold, "a") + other;
    assert_eq!(texts(&string), vec!["abc", "d", "e", "f"]);
    assert_eq!(string.elements[1].style, dim);
    assert_eq!(string.elements[2].style, dim);
    assert_eq!(string.elements[3].style, bold);
}

#[test]
fn length_and_text_add_up() {
    let a = TermString::new(TermStyle::bold(), "some bold text ")
        + TermString::new(TermStyle::underline(true), "and some underlined text.");
    let b = TermString::new(TermStyle::underline(true), " more") + " and more";
    let (a_len, b_len) = (a.len(), b.len());
    let (a_text, b_text) = (a.as_string(), b.as_string());
    assert_eq!(a_len, 40);
    assert_eq!(a_text, "some bold text and some underlined text.");
    let both = a + b;
    assert_eq!(both.len(), a_len + b_len);
    assert_eq!(both.as_string(), a_text + &b_text);
    assert_eq!(both.elements.len(), 2);
}

#[test]
fn length_counts_bytes() {
    let string = TermString::new(TermStyle::default(), "h\u{e9}") + "\u{20ac}\u{1f600}";
    assert_eq!(string.len(), 1 + 2 + 3 + 4);
    assert_eq!(string.checked_len(), Some(10));
    assert_eq!(string.as_string().chars().count(), 4);
    assert!(!string.is_empty());
}

#[test]
fn appending_a_blank_string_changes_nothing() {
    let mut string = TermString::new(TermStyle::bold(), "a") + TermString::new(TermStyle::dim(), "b");
    let before = string.clone();
    string.append(TermString::new(TermStyle::default(), ""));
    assert_eq!(string.elements, before.elements);
    string.append(TermString::from(""));
    assert_eq!(string.elements, before.elements);
    string.append(TermString::default());
    assert_eq!(string.elements, before.elements);
}

#[test]
fn appending_to_a_blank_string_gives_the_other() {
    let mut string = TermString::from("");
    assert_eq!(string.elements.len(), 1);
    string.append(TermString::new(TermStyle::bold(), "a"));
    assert_eq!(string.elements, TermString::new(TermStyle::bold(), "a").elements);
}

#[test]
fn a_blank_run_leaves_on_append() {
    let mut string = TermString::from("");
    string.append(TermString::from(""));
    assert_eq!(string.elements.len(), 0);
    assert!(string.is_empty());
    assert_eq!(string.len(), 0);
    assert_eq!(string.as_string(), "");
}

#[test]
fn an_empty_run_with_a_style_stays() {
    let mut string = TermString::new(TermStyle::bold(), "");
    string.append(TermString::new(TermStyle::underline(true), ""));
    assert_eq!(string.elements.len(), 2);
    string.append(TermString::new(TermStyle::underline(true), "u"));
    assert_eq!(texts(&string), vec!["", "u"]);
}

#[test]
fn an_unstyled_text_with_text_stays() {
    let string = TermString::new(TermStyle::bold(), "a") + TermString::from(" : ") + TermString::from("b");
    assert_eq!(texts(&string), vec!["a", " : b"]);
    assert_eq!(string.elements[1].style, TermStyle::default());
}

#[test]
fn text_takes_the_style_of_the_last_run() {
    let mut string = TermString::new(TermStyle::bold(), "a") + TermString::new(TermStyle::dim(), "b");
    string.append_str("c");
    string += "";
    assert_eq!(texts(&string), vec!["a", "bc"]);
    assert_eq!(string.elements[1].style, TermStyle::dim());
}

#[test]
fn text_on_a_string_without_runs() {
    let mut string = TermString::default();
    string.append_str("");
    assert_eq!(string.elements.len(), 0);
    string.append_str("a");
    assert_eq!(string.elements, TermString::from("a").elements);
    assert_eq!(string.elements[0].style, TermStyle::default());
}

#[test]
fn a_bulk_style_leaves_equal_neighbours() {
    let mut string = TermString::new(TermStyle::underline(true), "Hello ")
        + TermString::new(TermStyle::underline(false), "World!");
    string.reset_style();
    assert_eq!(string.elements.len(), 2);
    assert_eq!(string.elements[0].style, TermStyle::default());
    assert_eq!(string.elements[1].style, TermStyle::default());
    assert_eq!(texts(&string), vec!["Hello ", "World!"]);
    let joined = TermString::default() + string;
    assert_eq!(texts(&joined), vec!["Hello ", "World!"]);
}

#[test]
fn a_later_append_joins_after_a_bulk_style() {
    let mut string = TermString::new(TermStyle::bold(), "a") + TermString::new(TermStyle::dim(), "b");
    string.set_style(TermStyle::bold());
    string += TermString::new(TermStyle::bold(), "c");
    assert_eq!(texts(&string), vec!["a", "bc"]);
}

#[test]
fn or_and_add_reach_every_run() {
    let fg_bg = TermStyle::bg(RED) + TermStyle::fg(GREEN);
    let underline = TermStyle::underline(true);
    let string = TermString::new(fg_bg, "fg bg") + TermString::new(underline, " underline");

    let ored = string.clone().with_ored_style(TermStyle::bg(GREEN));
    assert_eq!(ored.elements[0].style, fg_bg);
    assert_eq!(ored.elements[1].style, underline | TermStyle::bg(GREEN));

    let added = string.clone().with_style(TermStyle::bg(GREEN));
    assert_eq!(added.elements[0].style, TermStyle::bg(GREEN) + TermStyle::fg(GREEN));
    assert_eq!(added.elements[1].style, underline + TermStyle::bg(GREEN));

    let mut in_place = string.clone();
    in_place.or_style(TermStyle::bg(GREEN));
    assert_eq!(in_place.elements, ored.elements);
    in_place = string.clone();
    in_place.add_style(TermStyle::bg(GREEN));
    assert_eq!(in_place.elements, added.elements);

    let reset = string.with_reset_style();
    assert_eq!(reset.elements[0].style, TermStyle::default());
    assert_eq!(reset.elements[1].style, TermStyle::default());
    assert_eq!(reset.as_string(), "fg bg underline");
}

#[test]
fn chaining_appends() {
    let string = TermString::new(TermStyle::bold(), "a")
        .with_appended_str("b")
        .with_appended(TermString::new(TermStyle::dim(), "c"))
        .with_appended_term_str(TermString::new(TermStyle::dim(), "d"));
    assert_eq!(texts(&string), vec!["ab", "cd"]);
}

#[test]
fn blank_runs_are_told() {
    assert!(TermStringElement::default().is_blank());
    assert!(TermStringElement::new(TermStyle::default(), "").is_blank());
    assert!(!TermStringElement::new(TermStyle::default(), " ").is_blank());
    assert!(!TermStringElement::new(TermStyle::bold(), "").is_blank());
    assert_eq!(TermStringElement::default(), TermStringElement::new(TermStyle::default(), ""));
}
