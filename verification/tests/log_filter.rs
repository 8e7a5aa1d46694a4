use ledger_boot::log_filter::{checked_log_filter, filter_or_info, is_aligned, log_filter};
use tracing_subscriber::EnvFilter;

fn text(value: &str) -> Option<String> {
    Some(value.to_string())
}

fn rules(value: &str) -> String {
    checked_log_filter(&text(value)).unwrap().to_string()
}

/// All texts of up to `length` characters of `alphabet`.
fn texts(alphabet: &[char], length: usize) -> Vec<String> {
    let mut all = vec![String::new()];
    let mut last = all.clone();
    for _ in 0..length {
        let mut next = Vec::new();
        for text in &last {
            for c in alphabet {
                next.push(format!("{}{}", text, c));
            }
        }
        all.extend(next.clone());
        last = next;
    }
    all
}

#[test]
fn the_log_filter_falls_back_to_info() {
    assert_eq!(log_filter(&None).to_string(), "info");
    assert_eq!(checked_log_filter(&None).unwrap().to_string(), "info");
    assert_eq!(rules("some_target=fake level"), "info");
    assert_eq!(rules("foo=trace"), "foo=trace");
    assert_eq!(rules("warn"), "warn");
    assert_eq!(rules(""), "");
}

#[test]
fn a_parsed_filter_is_kept() {
    assert_eq!(filter_or_info(EnvFilter::try_new("debug")).to_string(), "debug");
    assert_eq!(filter_or_info(EnvFilter::try_new("foo=bar=baz")).to_string(), "info");
}

#[test]
fn directives_without_leading_white_space_are_aligned() {
    for value in ["info", "\u{e9}=info", "\u{e9}[\u{e9}{f=1}]=warn,b=debug", "a\u{e9} ,x"] {
        assert!(is_aligned(value), "{}", value);
    }
}

#[test]
fn offsets_that_fit_are_aligned() {
    assert_eq!(rules(" a=\u{e9}"), "info");
    assert_eq!(rules("  [\u{e9}]"), "[ []=trace");
    assert_eq!(rules(" !\u{e9}=info"), "info");
    assert_eq!(rules(" \u{e9}"), " \u{e9}=trace");
    assert_eq!(rules("    [{f=(aaa\u{e9}}]=x"), "info");
    assert_eq!(rules("x=bogus, \u{e9}=info"), "info");
}

#[test]
fn a_rejected_field_ends_the_slicing() {
    assert_eq!(rules("    a}[{=(xx\u{e9}}]=x"), "info");
    assert_eq!(rules("    a}[{f=(\u{e9}\u{e9}}]=x"), "info");
}

#[test]
fn offsets_inside_a_character_are_not_aligned() {
    for value in [" \u{e9}=info", "info,\u{3000}a=debug", " [\u{e9}]", " \u{e9}=info,x=bogus", "    [{faaaa\u{e9}}]=x"] {
        assert!(!is_aligned(value), "{}", value);
        assert!(checked_log_filter(&text(value)).is_none());
    }
}

#[test]
fn an_aligned_value_can_be_parsed() {
    for value in texts(&[' ', 'a', '\u{e9}', '=', '[', ']', '{', '}', ','], 5) {
        if is_aligned(&value) {
            let expected = match EnvFilter::try_new(&value) {
                Ok(filter) => filter.to_string(),
                Err(_) => "info".to_string(),
            };
            assert_eq!(rules(&value), expected, "{:?}", value);
        }
    }
}
