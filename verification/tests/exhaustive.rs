use aho_corasick::AhoCorasick;
use slang::matcher::Marker;
use slang::matcher::MarkerMatcher;
use slang::scanner::clean_line;
use slang::scanner::haystack_bytes;
use slang::scanner::ScanState;

const ALPHABET: [char; 5] = ['/', '*', '"', 'a', ' '];
const PATTERNS: [&str; 4] = ["//", "/*", "*/", "\""];

/// Every line over the alphabet with the given number of characters.
fn lines_of_length(n: usize) -> Vec<String> {
    let mut lines = vec![String::new()];
    for _ in 0..n {
        let mut longer = Vec::with_capacity(lines.len() * ALPHABET.len());
        for line in &lines {
            for c in ALPHABET {
                let mut next = line.clone();
                next.push(c);
                longer.push(next);
            }
        }
        lines = longer;
    }
    lines
}

/// Cleans a line by walking over the automaton's matches, one state
/// transition per match.
fn walk_matches(ac: &AhoCorasick, line: &str, start: ScanState) -> (String, ScanState) {
    let mut out = String::new();
    let mut last_end = 0;
    let mut state = start;
    for mat in ac.find_iter(line) {
        let pattern = PATTERNS[mat.pattern().as_usize()];
        let before = &line[last_end..mat.start()];
        match state {
            ScanState::BlockComment(_) => out.push_str(&" ".repeat(before.len())),
            _ => out.push_str(before),
        }
        match (state, pattern) {
            (ScanState::Code, "//") => {
                out.push_str(&" ".repeat(line.len() - mat.start()));
                return (out, state);
            }
            (ScanState::Code, "/*") => {
                state = ScanState::BlockComment(1);
                out.push_str("  ");
            }
            (ScanState::Code, "\"") => {
                state = ScanState::Quote;
                out.push('"');
            }
            (ScanState::Code, _) => out.push_str(pattern),
            (ScanState::BlockComment(depth), "/*") => {
                state = ScanState::BlockComment(depth + 1);
                out.push_str("  ");
            }
            (ScanState::BlockComment(depth), "*/") => {
                state = if depth == 1 { ScanState::Code } else { ScanState::BlockComment(depth - 1) };
                out.push_str("  ");
            }
            (ScanState::BlockComment(_), _) => out.push_str(&" ".repeat(pattern.len())),
            (ScanState::Quote, "\"") => {
                state = ScanState::Code;
                out.push('"');
            }
            (ScanState::Quote, _) => out.push_str(pattern),
        }
        last_end = mat.end();
    }
    let rest = &line[last_end..];
    match state {
        ScanState::BlockComment(_) => out.push_str(&" ".repeat(rest.len())),
        _ => out.push_str(rest),
    }
    (out, state)
}

#[test]
fn cleaning_agrees_with_a_walk_over_the_matches() {
    let ac = AhoCorasick::new(PATTERNS).unwrap();
    let matcher = MarkerMatcher::new();
    let starts = [ScanState::Code, ScanState::BlockComment(1), ScanState::BlockComment(2), ScanState::Quote];
    for n in 0..=6 {
        for line in lines_of_length(n) {
            let text: Vec<char> = line.chars().collect();
            for start in starts {
                let (cleaned, state) = clean_line(&matcher, &text, start);
                let (expected, expected_state) = walk_matches(&ac, &line, start);
                assert_eq!(cleaned.to_string(), expected, "{:?} in {:?}", line, start);
                assert_eq!(state, expected_state, "{:?} in {:?}", line, start);
                assert_eq!(cleaned.is_borrowed(), expected == line, "{:?} in {:?}", line, start);
            }
        }
    }
}

#[test]
fn cleaning_twice_is_cleaning_once() {
    let matcher = MarkerMatcher::new();
    for n in 0..=7 {
        for line in lines_of_length(n) {
            let text: Vec<char> = line.chars().collect();
            let (once, _) = clean_line(&matcher, &text, ScanState::Code);
            let once: Vec<char> = once.as_slice().to_vec();
            assert_eq!(once.len(), text.len());
            let (twice, _) = clean_line(&matcher, &once, ScanState::Code);
            assert!(twice.is_borrowed(), "{:?}", line);
            assert_eq!(twice.as_slice(), &once[..], "{:?}", line);
        }
    }
}

#[test]
fn matcher_agrees_with_the_automaton() {
    let ac = AhoCorasick::new(PATTERNS).unwrap();
    let matcher = MarkerMatcher::new();
    let markers = [Marker::LineComment, Marker::BlockOpen, Marker::BlockClose, Marker::Quote];
    for n in 0..=6 {
        for line in lines_of_length(n) {
            let text: Vec<char> = line.chars().collect();
            let haystack = haystack_bytes(&text);
            let mut from = 0;
            for mat in ac.find_iter(&line) {
                let found = matcher.find(&haystack, from);
                assert_eq!(
                    found,
                    Some((mat.start(), markers[mat.pattern().as_usize()])),
                    "{:?} from {}",
                    line,
                    from
                );
                from = mat.end();
            }
            assert_eq!(matcher.find(&haystack, from), None, "{:?} from {}", line, from);
        }
    }
}

#[test]
fn lines_are_split_as_the_standard_library_splits_them() {
    let alphabet = ['a', '\r', '\n'];
    let mut texts = vec![String::new()];
    for _ in 0..8 {
        let mut longer = Vec::with_capacity(texts.len() * alphabet.len());
        for text in &texts {
            for c in alphabet {
                let mut next = text.clone();
                next.push(c);
                longer.push(next);
            }
        }
        for text in &longer {
            let expected: Vec<&str> = text.lines().collect();
            assert_eq!(slang::scanner::replace_comments(text), expected, "{:?}", text);
        }
        texts = longer;
    }
}
