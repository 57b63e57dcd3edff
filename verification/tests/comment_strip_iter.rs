use slang::matcher::Marker;
use slang::matcher::MarkerMatcher;
use slang::scanner::replace_comments;
use slang::scanner::clean_line;
use slang::scanner::clean_str_line;
use slang::scanner::has_special_chars;
use slang::scanner::haystack_bytes;
use slang::scanner::str_has_special_chars;
use slang::scanner::CleanedLine;
use slang::scanner::CommentReplaceExt;
use slang::scanner::CommentReplaceIter;
use slang::scanner::ScanState;
use std::borrow::Cow;

fn chars(text: &str) -> Vec<char> {
    text.chars().collect()
}

fn clean_first(input: &str) -> String {
    let text = chars(input);
    let mut iter = text.as_slice().replace_comments();
    iter.next().unwrap().to_string()
}

#[test]
fn comment_strip_iter_comment_test() {
    const INPUT: &str = "
not commented
// line commented
not commented
/* block commented on a line */
not commented
// line comment with a /* block comment unterminated
not commented
/* block comment
   spanning lines */
not commented
/* block comment
   spanning lines and with // line comments
   even with a // line commented terminator */
not commented
";

    let processed: Vec<String> = replace_comments(INPUT);
    let original: Vec<&str> = INPUT.lines().collect();
    assert_eq!(processed.len(), original.len());

    for (i, (processed_line, original_line)) in processed.iter().zip(original.iter()).enumerate() {
        assert_eq!(
            processed_line.len(),
            original_line.len(),
            "Line {} length mismatch: processed '{}' vs original '{}'",
            i,
            processed_line,
            original_line
        );

        if *original_line != "not commented" {
            assert!(
                processed_line.chars().all(|c| c == ' ') || *processed_line == *original_line,
                "Line {} should be all spaces or unchanged: '{}'",
                i,
                processed_line
            );
        }
    }
}

#[test]
fn partial_tests() {
    const PARTIAL_TESTS: [(&str, &str); 11] = [
        (
            "1.0 /* block comment with a partial line comment on the end *// 2.0",
            "1.0                                                           / 2.0",
        ),
        (
            "1.0 /* block comment with a partial block comment on the end */* 2.0",
            "1.0                                                            * 2.0",
        ),
        (
            "1.0 /* block comment 1 *//* block comment 2 */ * 2.0",
            "1.0                                            * 2.0",
        ),
        (
            "1.0 /* block comment with real line comment after */// line comment",
            "1.0                                                                ",
        ),
        ("*/", "*/"),
        ("#import \"embedded://file.wgsl\"", "#import \"embedded://file.wgsl\""),
        ("// #import \"embedded://file.wgsl\"", "                                 "),
        ("/* #import \"embedded://file.wgsl\" */", "                                    "),
        ("/* #import \"embedded:*/file.wgsl\" */", "                       file.wgsl\" */"),
        (
            "#import \"embedded://file.wgsl\" // comment",
            "#import \"embedded://file.wgsl\"           ",
        ),
        (
            "#import \"embedded:/* */ /* /**/* / / /// * / //*/*/ / */*file.wgsl\"",
            "#import \"embedded:/* */ /* /**/* / / /// * / //*/*/ / */*file.wgsl\"",
        ),
    ];

    for (input, expected) in PARTIAL_TESTS.iter() {
        let result = clean_first(input);
        assert_eq!(&result, expected, "Failed for input: {}", input);
    }
}

#[test]
fn test_comment_becomes_spaces() {
    let input = "let a/**/b =3u;";
    let expected = "let a    b =3u;";
    let result = clean_first(input);
    assert_eq!(&result, expected);
}

#[test]
fn test_nested_block_comments() {
    let input = "test /* outer /* inner */ outer */ test";
    let expected = "test                               test";
    let result = clean_first(input);
    assert_eq!(&result, expected);
}

#[test]
fn test_quotes_with_comments() {
    let input = "text \"string // with comment\" text";
    let expected = "text \"string // with comment\" text";
    let result = clean_first(input);
    assert_eq!((&result).trim(), expected.trim());
}

#[test]
fn test_quotes_in_comments() {
    let input = "/* \"comment inside string\" */";
    let expected = "                              ";
    let result = clean_first(input);
    assert_eq!((&result).trim(), expected.trim());
}

#[test]
fn test_fast_path() {
    let simple_lines = ["just some code", "let x = 5;", "fn main() {}"];

    for line in simple_lines {
        let text = chars(line);
        let mut iter = text.as_slice().replace_comments();
        let result = iter.next().unwrap();
        assert!(matches!(result, CleanedLine::Borrowed(_)), "Fast path failed for: {}", line);
        assert_eq!(&result.to_string(), line);
    }
}

#[test]
fn test_unterminated_block_comment() {
    let input = "start /* unclosed comment";
    let expected = "start                       ";
    let result = clean_first(input);
    assert_eq!((&result).trim(), expected.trim());
}

#[test]
fn test_multiple_lines_persist_state() {
    let input = "line1 /* comment\nline2 still in comment\nline3 */ out";
    let text = chars(input);
    let mut iter = text.as_slice().replace_comments();

    assert_eq!(&iter.next().unwrap().to_string(), "line1           ");
    assert_eq!(&iter.next().unwrap().to_string(), "                      ");
    assert_eq!(&iter.next().unwrap().to_string(), "         out");
    assert!(iter.next().is_none());
}

#[test]
fn quotes_and_comments_shadow_each_other() {
    assert_eq!(clean_first("/* \"comment inside string\" */"), " ".repeat(29));
    assert_eq!(
        clean_first("text \"string // with comment\" text"),
        "text \"string // with comment\" text"
    );
}

#[test]
fn unchanged_lines_are_borrowed() {
    let matcher = MarkerMatcher::new();
    for line in ["", "plain", "a \"quoted // text\" b", "*/ stray closer", "a * b / c"] {
        let text = chars(line);
        let (cleaned, state) = clean_line(&matcher, &text, ScanState::Code);
        assert!(cleaned.is_borrowed(), "{}", line);
        assert_eq!(cleaned.to_string(), line);
        assert_eq!(state, ScanState::Code);
    }
    let text = chars("a // b");
    let (cleaned, _) = clean_line(&matcher, &text, ScanState::Code);
    assert!(!cleaned.is_borrowed());
    assert!(matches!(cleaned, CleanedLine::Owned(_)));
}

#[test]
fn states_follow_the_transition_table() {
    let matcher = MarkerMatcher::new();
    let cases: [(&str, ScanState, &str, ScanState); 14] = [
        ("a // b", ScanState::Code, "a     ", ScanState::Code),
        ("a /* b", ScanState::Code, "a     ", ScanState::BlockComment(1)),
        ("a \" b", ScanState::Code, "a \" b", ScanState::Quote),
        ("a */ b", ScanState::Code, "a */ b", ScanState::Code),
        ("a /* b", ScanState::BlockComment(1), "      ", ScanState::BlockComment(2)),
        ("a */ b", ScanState::BlockComment(1), "     b", ScanState::Code),
        ("a */ b", ScanState::BlockComment(3), "      ", ScanState::BlockComment(2)),
        ("a // b", ScanState::BlockComment(2), "      ", ScanState::BlockComment(2)),
        ("a \" b", ScanState::BlockComment(2), "     ", ScanState::BlockComment(2)),
        ("a \" b", ScanState::Quote, "a \" b", ScanState::Code),
        ("a // b", ScanState::Quote, "a // b", ScanState::Quote),
        ("a /* b", ScanState::Quote, "a /* b", ScanState::Quote),
        ("a */ b", ScanState::Quote, "a */ b", ScanState::Quote),
        ("/* /* */ */ x", ScanState::Code, "            x", ScanState::Code),
    ];
    for (input, state, expected, next) in cases {
        let text = chars(input);
        let (cleaned, after) = clean_line(&matcher, &text, state);
        assert_eq!(cleaned.to_string(), expected, "{} in {:?}", input, state);
        assert_eq!(after, next, "{} in {:?}", input, state);
    }
}

#[test]
fn unterminated_quote_reaches_the_next_line() {
    let lines = replace_comments("a \"open\n// still quoted\" // now a comment\nplain");
    assert_eq!(lines, vec!["a \"open", "// still quoted\"                 ", "plain"]);
}

#[test]
fn unterminated_block_comment_blanks_the_rest() {
    let lines = replace_comments("a /* open\nb\n\nc \" d");
    assert_eq!(lines, vec!["a        ", " ", "", "     "]);
}

#[test]
fn cleaning_keeps_the_length_of_each_line() {
    let inputs = [
        "",
        "/",
        "/*",
        "\"",
        "a /* \u{e9}\u{4e2d} */ b",
        "// \u{1f600} comment",
        "x /* y /* z */ w",
    ];
    let matcher = MarkerMatcher::new();
    for input in inputs {
        for state in [ScanState::Code, ScanState::BlockComment(2), ScanState::Quote] {
            let text = chars(input);
            let (cleaned, _) = clean_line(&matcher, &text, state);
            assert_eq!(cleaned.len(), text.len());
            for (k, c) in cleaned.as_slice().iter().enumerate() {
                assert!(*c == text[k] || *c == ' ');
            }
        }
    }
    assert_eq!(clean_first("a /* \u{e9}\u{4e2d} */ b"), "a          b");
}

#[test]
fn cleaning_twice_changes_nothing_more() {
    let inputs = [
        "test /* outer /* inner */ outer */ test",
        "a \"b // c\" // d",
        "/* \" */ \" // x",
        "*// /**/*/ //",
        "\"/*\" */ //x",
        "/*/",
    ];
    for input in inputs {
        let once = clean_first(input);
        let twice = if once.is_empty() { String::new() } else { clean_first(&once) };
        assert_eq!(once, twice, "{}", input);
    }
    let text = "a /* b\nc */ d \"e\n// f\" g // h";
    let once = replace_comments(text);
    let twice = replace_comments(&once.join("\n"));
    assert_eq!(once, twice);
}

#[test]
fn lines_end_at_line_feeds() {
    assert_eq!(replace_comments(""), Vec::<String>::new());
    assert_eq!(replace_comments("\n"), vec![""]);
    assert_eq!(replace_comments("a\n"), vec!["a"]);
    assert_eq!(replace_comments("a\n\nb"), vec!["a", "", "b"]);
    assert_eq!(replace_comments("a\r\nb\r"), vec!["a", "b\r"]);
    assert_eq!(replace_comments("a\r\n\r\n"), vec!["a", ""]);
    let text = "one\r\ntwo // x\nthree";
    let expected: Vec<String> = text.lines().map(|l| l.replace("// x", "    ")).collect();
    assert_eq!(replace_comments(text), expected);
}

#[test]
fn iterator_reports_its_state() {
    let text = chars("a /* b /* c\nd */ e\nf */ g \" h");
    let mut iter = CommentReplaceIter::new(&text);
    assert_eq!(iter.state(), ScanState::Code);
    iter.next();
    assert_eq!(iter.state(), ScanState::BlockComment(2));
    iter.next();
    assert_eq!(iter.state(), ScanState::BlockComment(1));
    assert_eq!(iter.next().unwrap().to_string(), "     g \" h");
    assert_eq!(iter.state(), ScanState::Quote);
    assert!(iter.next().is_none());
    assert_eq!(iter.state(), ScanState::Quote);
}

#[test]
fn matcher_finds_the_leftmost_marker() {
    let matcher = MarkerMatcher::new();
    let line = chars("ab*/ \"x//y/*");
    let haystack = haystack_bytes(&line);
    assert_eq!(haystack, b"  */ \" // /*".to_vec());
    assert_eq!(matcher.find(&haystack, 0), Some((2, Marker::BlockClose)));
    assert_eq!(matcher.find(&haystack, 3), Some((5, Marker::Quote)));
    assert_eq!(matcher.find(&haystack, 6), Some((7, Marker::LineComment)));
    assert_eq!(matcher.find(&haystack, 8), Some((10, Marker::BlockOpen)));
    assert_eq!(matcher.find(&haystack, 11), None);
    assert_eq!(matcher.find(&haystack, 12), None);
    let overlap = haystack_bytes(&chars("/*/"));
    assert_eq!(matcher.find(&overlap, 0), Some((0, Marker::BlockOpen)));
    assert_eq!(matcher.find(&overlap, 1), Some((1, Marker::BlockClose)));
    assert_eq!(matcher.find(&overlap, 2), None);
}

#[test]
fn special_characters_are_told() {
    assert!(!has_special_chars(&chars("let x = 5;")));
    assert!(!has_special_chars(&chars("")));
    assert!(has_special_chars(&chars("a / b")));
    assert!(has_special_chars(&chars("a * b")));
    assert!(has_special_chars(&chars("say \"")));
    for text in ["", "let x = 5;", "a / b", "a * b", "say \"", "\u{e9}t\u{e9}", "\u{e9}/"] {
        assert_eq!(str_has_special_chars(text), has_special_chars(&chars(text)), "{}", text);
    }
}

#[test]
fn lines_of_strings_are_borrowed_when_unchanged() {
    let matcher = MarkerMatcher::new();
    for line in ["just some code", "let x = 5;", "fn main() {}", "\"a // b\"", ""] {
        let (cleaned, state) = clean_str_line(&matcher, line, ScanState::Code);
        assert!(matches!(cleaned, Cow::Borrowed(_)), "{}", line);
        assert_eq!(cleaned, line);
        assert_eq!(state, ScanState::Code);
    }
    let (cleaned, state) = clean_str_line(&matcher, "x /* \u{e9} */ y /*", ScanState::Code);
    assert!(matches!(cleaned, Cow::Owned(_)));
    assert_eq!(cleaned, "x         y   ");
    assert_eq!(state, ScanState::BlockComment(1));
    let (cleaned, state) = clean_str_line(&matcher, "still */ out", state);
    assert_eq!(cleaned, "         out");
    assert_eq!(state, ScanState::Code);
}
