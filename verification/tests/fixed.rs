use esp_gpio_viewer::fixed::{FixedString, FixedVec};
use esp_gpio_viewer::text::same_text;

#[test]
fn string_holds_what_is_pushed() {
    let mut text: FixedString<8> = FixedString::new();
    assert_eq!(text.as_str(), "");
    assert!(text.push_str("abc"));
    assert!(text.push('d'));
    assert_eq!(text.as_str(), "abcd");
    text.clear();
    assert_eq!(text.as_str(), "");
}

#[test]
fn string_is_filled_to_its_last_byte() {
    let mut text: FixedString<4> = FixedString::new();
    assert!(text.push_str("abcd"));
    assert_eq!(text.as_str(), "abcd");
    assert!(!text.push('e'));
    assert!(!text.push_str("e"));
    assert!(text.push_str(""));
    assert_eq!(text.as_str(), "abcd");
}

#[test]
fn string_keeps_the_prefix_that_fits() {
    let mut text: FixedString<5> = FixedString::clipped("ab");
    assert!(!text.push_str("cdefg"));
    assert_eq!(text.as_str(), "abcde");
}

#[test]
fn string_is_cut_between_characters() {
    // Each of these characters takes three bytes.
    let text: FixedString<8> = FixedString::clipped("€€€");
    assert_eq!(text.as_str(), "€€");
    // The character that does not fit is the last one, even if a shorter one follows.
    let text: FixedString<4> = FixedString::clipped("ab€c");
    assert_eq!(text.as_str(), "ab");
}

#[test]
fn clipping_again_changes_nothing() {
    let once: FixedString<7> = FixedString::clipped("äöüäöü");
    let twice: FixedString<7> = FixedString::clipped(once.as_str());
    assert_eq!(once.as_str(), "äöü");
    assert_eq!(twice.as_str(), once.as_str());
}

#[test]
fn string_clone_is_independent() {
    let mut text: FixedString<8> = FixedString::clipped("abc");
    let copy = text.clone();
    assert!(text.push('d'));
    assert_eq!(copy.as_str(), "abc");
    assert_eq!(text.as_str(), "abcd");
}

#[test]
fn list_hands_back_what_has_no_room() {
    let mut list: FixedVec<u8, 2> = FixedVec::new();
    assert!(list.is_empty());
    assert_eq!(list.push(1), Ok(()));
    assert_eq!(list.push(2), Ok(()));
    assert_eq!(list.push(3), Err(3));
    assert_eq!(list.as_slice(), &[1, 2]);
    assert_eq!(list.len(), 2);
    let copy = list.clone();
    list.clear();
    assert!(list.is_empty());
    assert_eq!(copy.as_slice(), &[1, 2]);
}

#[test]
fn texts_are_compared_by_content() {
    assert!(same_text("", ""));
    assert!(same_text("/events", "/events"));
    assert!(!same_text("/events", "/event"));
    assert!(!same_text("/events", "/Events"));
    assert!(!same_text("ä", "a"));
}
