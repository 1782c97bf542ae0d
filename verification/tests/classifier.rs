use imgopt::classifier::classify;
use imgopt::classifier::Intent;
use imgopt::classifier::Key;
use imgopt::classifier::KeyInput;
use imgopt::classifier::RawEvent;
use imgopt::text::has_image_extension;
use imgopt::text::normalize_path;

fn chars(s: &str) -> Vec<char> {
    s.chars().collect()
}

fn key(c: char) -> RawEvent {
    RawEvent::Key(KeyInput { key: Key::Char(c), ctrl: false })
}

fn ctrl_key(c: char) -> RawEvent {
    RawEvent::Key(KeyInput { key: Key::Char(c), ctrl: true })
}

fn plain(k: Key) -> RawEvent {
    RawEvent::Key(KeyInput { key: k, ctrl: false })
}

#[test]
fn quote_auto_submit() {
    let mut acc: Vec<char> = Vec::new();
    let input = ['\'', '/', 'a', '.', 'p', 'n', 'g', '\''];
    for (idx, &c) in input.iter().enumerate() {
        let intent = classify(&key(c), &acc);
        if idx + 1 < input.len() {
            assert_eq!(intent, Intent::AppendChar(c));
            acc.push(c);
        } else {
            assert_eq!(intent, Intent::SubmitPath(chars("/a.png")));
        }
    }
}

#[test]
fn non_image_quote_keeps_collecting() {
    let mut acc: Vec<char> = Vec::new();
    for &c in ['\'', 'f', '.', 't', 'x', 't', '\''].iter() {
        let intent = classify(&key(c), &acc);
        assert_eq!(intent, Intent::AppendChar(c));
        acc.push(c);
    }
}

#[test]
fn quit_precedence_over_pending_input() {
    let acc = chars("/half/typed/picture.pn");
    assert_eq!(classify(&plain(Key::Esc), &acc), Intent::Quit);
    assert_eq!(classify(&ctrl_key('c'), &acc), Intent::Quit);
    assert_eq!(classify(&ctrl_key('d'), &acc), Intent::Quit);
}

#[test]
fn enter_submits_without_extension_filter() {
    let acc = chars(" 'notes.txt' ");
    let intent = classify(&plain(Key::Enter), &acc);
    assert_eq!(intent, Intent::SubmitPath(chars("notes.txt")));
}

#[test]
fn enter_on_empty_accumulator_ignored() {
    let acc: Vec<char> = Vec::new();
    assert_eq!(classify(&plain(Key::Enter), &acc), Intent::Ignore);
}

#[test]
fn backspace_always_erases() {
    assert_eq!(classify(&plain(Key::Backspace), &chars("abc")), Intent::RemoveLastChar);
    let empty: Vec<char> = Vec::new();
    assert_eq!(classify(&plain(Key::Backspace), &empty), Intent::RemoveLastChar);
}

#[test]
fn other_events_ignored() {
    let acc = chars("xyz");
    assert_eq!(classify(&plain(Key::Other), &acc), Intent::Ignore);
    assert_eq!(classify(&RawEvent::Other, &acc), Intent::Ignore);
}

#[test]
fn paste_submits_normalized() {
    let acc: Vec<char> = Vec::new();
    let intent = classify(&RawEvent::Paste(chars("  '/tmp/pic.jpeg'  ")), &acc);
    assert_eq!(intent, Intent::SubmitPath(chars("/tmp/pic.jpeg")));
}

#[test]
fn paste_without_extension_still_submits() {
    let acc: Vec<char> = Vec::new();
    let intent = classify(&RawEvent::Paste(chars("\"/tmp/archive.zip\"")), &acc);
    assert_eq!(intent, Intent::SubmitPath(chars("/tmp/archive.zip")));
}

#[test]
fn paste_of_blank_text_ignored() {
    let acc: Vec<char> = Vec::new();
    assert_eq!(classify(&RawEvent::Paste(chars("   ")), &acc), Intent::Ignore);
    assert_eq!(classify(&RawEvent::Paste(chars("''")), &acc), Intent::Ignore);
}

#[test]
fn uppercase_extension_auto_submits() {
    let acc = chars("\"B.PNG");
    let intent = classify(&key('"'), &acc);
    assert_eq!(intent, Intent::SubmitPath(chars("B.PNG")));
}

#[test]
fn uppercase_webp_auto_submits() {
    let acc = chars("'x.WEBP");
    let intent = classify(&key('\''), &acc);
    assert_eq!(intent, Intent::SubmitPath(chars("x.WEBP")));
}

#[test]
fn mismatched_quotes_not_stripped() {
    let acc = chars("'a.png");
    let intent = classify(&key('"'), &acc);
    assert_eq!(intent, Intent::AppendChar('"'));
}

#[test]
fn short_quoted_text_not_submitted() {
    let acc = chars("'");
    assert_eq!(classify(&key('\''), &acc), Intent::AppendChar('\''));
}

#[test]
fn control_modified_other_char_appends() {
    let acc: Vec<char> = Vec::new();
    assert_eq!(classify(&ctrl_key('x'), &acc), Intent::AppendChar('x'));
}

#[test]
fn normalize_strips_one_quote_layer_only() {
    assert_eq!(normalize_path(&chars("  ''a.png''  ")), chars("'a.png'"));
    assert_eq!(normalize_path(&chars("\t name.gif \r\n")), chars("name.gif"));
    assert_eq!(normalize_path(&chars("plain")), chars("plain"));
    assert_eq!(normalize_path(&chars("")), chars(""));
}

#[test]
fn extension_check_is_case_insensitive() {
    assert!(has_image_extension(&chars("a.png")));
    assert!(has_image_extension(&chars("a.JPG")));
    assert!(has_image_extension(&chars("a.JpEg")));
    assert!(has_image_extension(&chars("a.GiF")));
    assert!(has_image_extension(&chars("a.WEBP")));
    assert!(!has_image_extension(&chars("a.txt")));
    assert!(!has_image_extension(&chars("png")));
    assert!(!has_image_extension(&chars("a.png.zip")));
}
