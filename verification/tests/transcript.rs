use phoneme_align::transcript::{parse_line, Entry};

fn entry(id: &str, script: &str, ruby: Option<&str>) -> Entry {
    Entry { id: id.to_string(), script: script.to_string(), ruby: ruby.map(|r| r.to_string()) }
}

#[test]
fn a_line_without_a_colon_is_no_entry() {
    assert_eq!(parse_line(""), None);
    assert_eq!(parse_line("no id here, at all"), None);
}

#[test]
fn a_line_names_an_utterance_and_its_text() {
    assert_eq!(parse_line("a01:hello"), Some(entry("a01", "hello", None)));
}

#[test]
fn a_comma_sets_off_the_reading() {
    assert_eq!(
        parse_line("BASIC5000_0001:\u{6c34}\u{3092}\u{98f2}\u{3080},\u{30df}\u{30ba}\u{30f2}\u{30ce}\u{30e0}"),
        Some(entry(
            "BASIC5000_0001",
            "\u{6c34}\u{3092}\u{98f2}\u{3080}",
            Some("\u{30df}\u{30ba}\u{30f2}\u{30ce}\u{30e0}")
        ))
    );
}

#[test]
fn only_the_first_colon_and_the_first_comma_cut() {
    assert_eq!(parse_line("a:b:c,d,e"), Some(entry("a", "b:c", Some("d,e"))));
    assert_eq!(parse_line("a,b:c"), Some(entry("a,b", "c", None)));
}

#[test]
fn parts_may_be_empty() {
    assert_eq!(parse_line(":"), Some(entry("", "", None)));
    assert_eq!(parse_line(":,"), Some(entry("", "", Some(""))));
    assert_eq!(parse_line("id:"), Some(entry("id", "", None)));
    assert_eq!(parse_line("id:,r"), Some(entry("id", "", Some("r"))));
    assert_eq!(parse_line("id:s,"), Some(entry("id", "s", Some(""))));
}

#[test]
fn lines_are_cut_as_the_standard_library_cuts_them() {
    for line in ["x:y,z", "::", ",,:,,", "\u{3042}:\u{3044},\u{3046}", "a\u{ff1a}b:c", " : , "] {
        let expected = line.split_once(':').map(|(id, text)| match text.split_once(',') {
            Some((script, ruby)) => entry(id, script, Some(ruby)),
            None => entry(id, text, None),
        });
        assert_eq!(parse_line(line), expected);
    }
}

#[test]
fn a_different_reading_is_a_mismatch() {
    let given = entry("a", "b", Some("\u{30df}\u{30ba}"));
    assert!(given.pronunciation_mismatch(&"\u{30df}\u{30c4}".to_string()));
    assert!(given.pronunciation_mismatch(&String::new()));
}

#[test]
fn the_same_reading_is_no_mismatch() {
    let given = entry("a", "b", Some("\u{30df}\u{30ba}"));
    assert!(!given.pronunciation_mismatch(&"\u{30df}\u{30ba}".to_string()));
}

#[test]
fn without_a_reading_nothing_can_mismatch() {
    let given = entry("a", "b", None);
    assert!(!given.pronunciation_mismatch(&"\u{30df}\u{30ba}".to_string()));
    assert!(!given.pronunciation_mismatch(&String::new()));
}
