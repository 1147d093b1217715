use newscheck::display::{rendered_body, title_padding};
use newscheck::feed::{Entry, Timestamp};

fn entry(body: &str) -> Entry {
    Entry::new("T".to_string(), body.to_string(), Timestamp::from_unix(0, 0).unwrap())
}

#[test]
fn raw_body_is_kept_as_is() {
    let e = entry("<p>two <b>words</b></p>");
    assert_eq!(rendered_body(&e, true, 80), "<p>two <b>words</b></p>");
}

#[test]
fn html_body_is_rendered_as_text() {
    let e = entry("<p>two <b>words</b></p>");
    let text = rendered_body(&e, false, 80);
    assert_ne!(text, e.body);
    assert!(text.contains("two"));
    assert!(!text.contains("<p>"));
}

#[test]
fn unrenderable_width_falls_back_to_raw_body() {
    let e = entry("<p>x</p>");
    assert_eq!(rendered_body(&e, false, 0), "<p>x</p>");
}

#[test]
fn title_padding_saturates() {
    assert_eq!(title_padding(80, "Hello"), 71);
    assert_eq!(title_padding(9, "Hello"), 0);
    assert_eq!(title_padding(10, "Hello"), 1);
    assert_eq!(title_padding(3, "Hello"), 0);
    assert_eq!(title_padding(10, "é"), 4);
}
