use herdr_quicknotes::text::{chars_of, is_whitespace, join_from, lines, strip_hashes, trim};

#[test]
fn whitespace_agrees_with_std_for_every_char() {
    for v in 0u32..=0x10FFFF {
        if let Some(c) = char::from_u32(v) {
            assert_eq!(is_whitespace(c), c.is_whitespace(), "U+{:04X}", v);
        }
    }
}

#[test]
fn trim_agrees_with_std() {
    let samples = [
        "",
        "   ",
        "  hola  ",
        "\t\n x \r\n",
        "\u{3000}título\u{a0}",
        "a b c",
        "\u{85}z\u{2028}",
        "ünï cödé",
    ];
    for s in samples {
        assert_eq!(trim(s), s.trim());
    }
}

#[test]
fn trim_keeps_inner_white_space() {
    assert_eq!(trim("  a  b  "), "a  b");
}

#[test]
fn lines_agree_with_std() {
    let samples = [
        "",
        "\n",
        "a",
        "a\n",
        "a\nb",
        "a\r\nb\r\n",
        "a\n\nb",
        "foo\r\nbar\n\nbaz\r",
        "\r\n",
        "x\r",
        "\n\n\n",
        "ñ\nü",
    ];
    for s in samples {
        let ours = lines(s);
        let std: Vec<String> = s.lines().map(|l| l.to_string()).collect();
        assert_eq!(ours, std, "lines of {:?}", s);
    }
}

#[test]
fn join_from_joins_the_tail() {
    let ls = vec!["a".to_string(), "b".to_string(), "".to_string(), "c".to_string()];
    assert_eq!(join_from(&ls, 0), "a\nb\n\nc");
    assert_eq!(join_from(&ls, 1), "b\n\nc");
    assert_eq!(join_from(&ls, 3), "c");
    assert_eq!(join_from(&ls, 4), "");
}

#[test]
fn strip_hashes_removes_only_leading_marks() {
    assert_eq!(strip_hashes("## Title #1"), " Title #1");
    assert_eq!(strip_hashes("###"), "");
    assert_eq!(strip_hashes("no marks"), "no marks");
    assert_eq!(strip_hashes(" # x"), " # x");
}

#[test]
fn chars_of_gives_every_char() {
    assert_eq!(chars_of("añ🔍"), vec!['a', 'ñ', '🔍']);
    assert!(chars_of("").is_empty());
}
