//! Value segmentation: the lossless split and its edge cases, and
//! control-character escaping.

use envy_core::escape::escape_content;
use envy_core::split::split_value;
use envy_core::split::Segment;

fn cv(s: &str) -> Vec<char> {
    s.chars().collect()
}

fn pairs(segs: &Vec<Segment>) -> Vec<(String, String)> {
    segs.iter()
        .map(|s| (s.content.iter().collect(), s.separator.iter().collect()))
        .collect()
}

fn reassemble(segs: &Vec<Segment>) -> String {
    let mut out = String::new();
    for s in segs {
        out.extend(s.content.iter());
        out.extend(s.separator.iter());
    }
    out
}

#[test]
fn split_plain_list() {
    let segs = split_value(&cv("/bin:/usr/bin"), &cv(":,"));
    assert_eq!(
        pairs(&segs),
        vec![("/bin".to_string(), ":".to_string()), ("/usr/bin".to_string(), "".to_string())]
    );
}

#[test]
fn split_empty_value_yields_one_empty_segment() {
    let segs = split_value(&cv(""), &cv(":,"));
    assert_eq!(pairs(&segs), vec![("".to_string(), "".to_string())]);
}

#[test]
fn split_consecutive_separators_form_one_run() {
    let segs = split_value(&cv("a::b"), &cv(":,"));
    assert_eq!(
        pairs(&segs),
        vec![("a".to_string(), "::".to_string()), ("b".to_string(), "".to_string())]
    );
}

#[test]
fn split_trailing_separator_yields_final_empty_segment() {
    let segs = split_value(&cv("a:"), &cv(":,"));
    assert_eq!(
        pairs(&segs),
        vec![("a".to_string(), ":".to_string()), ("".to_string(), "".to_string())]
    );
}

#[test]
fn split_mixed_separator_set() {
    let segs = split_value(&cv("a,b:c"), &cv(":,"));
    assert_eq!(
        pairs(&segs),
        vec![
            ("a".to_string(), ",".to_string()),
            ("b".to_string(), ":".to_string()),
            ("c".to_string(), "".to_string()),
        ]
    );
}

#[test]
fn split_round_trips() {
    for value in ["", "a", "a:b", "a::b", ":", "::", "a:", ":a", "x,y:z,,", "no separators here"]
    {
        let segs = split_value(&cv(value), &cv(":,"));
        assert_eq!(reassemble(&segs), value.to_string());
    }
}

#[test]
fn escape_spells_out_control_characters() {
    let out = escape_content(&cv("a\tb\nc"), &cv(""), &cv(""));
    let text: String = out.iter().collect();
    assert_eq!(text, "a\\tb\\nc");
}

#[test]
fn escape_styles_special_characters() {
    let out = escape_content(&cv("\x1b"), &cv("<spe>"), &cv("<res>"));
    let text: String = out.iter().collect();
    assert_eq!(text, "<spe>\\x1b<res>");
}

#[test]
fn escape_covers_bell_and_carriage_return() {
    let out = escape_content(&cv("\r\x07"), &cv(""), &cv(""));
    let text: String = out.iter().collect();
    assert_eq!(text, "\\r\\x07");
}

#[test]
fn escape_leaves_ordinary_text_alone() {
    let out = escape_content(&cv("plain text"), &cv("<spe>"), &cv("<res>"));
    assert_eq!(out, cv("plain text"));
}
