//! The four markers the scanner reacts to, and the search for the next one
//! in a line: a single multi-pattern pass by an Aho-Corasick automaton.

use aho_corasick::AhoCorasick;
use aho_corasick::Input;
use vstd::prelude::*;

verus! {

/// A marker of the comment and quote syntax.
#[derive(Clone, Copy, Debug, PartialEq, Eq, Structural)]
pub enum Marker {
    /// `//`
    LineComment,
    /// `/*`
    BlockOpen,
    /// `*/`
    BlockClose,
    /// `"`
    Quote,
}

/// The number of characters of a marker.
pub open spec fn marker_len(m: Marker) -> int {
    match m {
        Marker::Quote => 1,
        _ => 2,
    }
}

/// The marker that starts at position `i` of the text, if one does.
pub open spec fn marker_at(text: Seq<char>, i: int) -> Option<Marker> {
    if i < 0 || i >= text.len() {
        None
    } else if text[i] == '"' {
        Some(Marker::Quote)
    } else if i + 1 >= text.len() {
        None
    } else if text[i] == '/' && text[i + 1] == '/' {
        Some(Marker::LineComment)
    } else if text[i] == '/' && text[i + 1] == '*' {
        Some(Marker::BlockOpen)
    } else if text[i] == '*' && text[i + 1] == '/' {
        Some(Marker::BlockClose)
    } else {
        None
    }
}

/// The leftmost marker that starts at or after `from`, with its position.
pub open spec fn first_marker(text: Seq<char>, from: int) -> Option<(int, Marker)>
    decreases text.len() - from,
{
    if from < 0 || from >= text.len() {
        None
    } else {
        match marker_at(text, from) {
            Some(m) => Some((from, m)),
            None => first_marker(text, from + 1),
        }
    }
}

/// Whether one of `/`, `"` and `*` is among the characters.
pub open spec fn has_special(text: Seq<char>) -> bool {
    exists|i: int| 0 <= i < text.len() && is_special(#[trigger] text[i])
}

/// The characters markers are made of.
pub open spec fn is_special(c: char) -> bool {
    c == '/' || c == '"' || c == '*'
}

/// The byte that stands for a character in a haystack: the character itself
/// where markers are made of it, a blank otherwise.
pub open spec fn marker_byte(c: char) -> u8 {
    if c == '/' {
        0x2Fu8
    } else if c == '*' {
        0x2Au8
    } else if c == '"' {
        0x22u8
    } else {
        0x20u8
    }
}

/// The haystack of a line: one byte for each character.
pub open spec fn haystack_of(text: Seq<char>) -> Seq<u8> {
    Seq::new(text.len(), |i: int| marker_byte(text[i]))
}

/// The marker patterns as bytes, in the order of their pattern numbers.
pub open spec fn marker_patterns() -> Seq<Seq<u8>> {
    seq![seq![0x2Fu8, 0x2Fu8], seq![0x2Fu8, 0x2Au8], seq![0x2Au8, 0x2Fu8], seq![0x22u8]]
}

/// Whether pattern number `p` stands in the haystack at position `s`.
pub open spec fn occurs_at(patterns: Seq<Seq<u8>>, haystack: Seq<u8>, p: int, s: int) -> bool {
    &&& 0 <= p < patterns.len()
    &&& 0 <= s
    &&& s + patterns[p].len() <= haystack.len()
    &&& haystack.subrange(s, s + patterns[p].len()) == patterns[p]
}

/// Whether a match is the earliest from `from` on: pattern number `p`
/// stands at `s`, at or after `from`, and ends at `e`, and no pattern that
/// stands at or after `from` ends before `e`.
pub open spec fn is_earliest_match(
    patterns: Seq<Seq<u8>>,
    haystack: Seq<u8>,
    from: int,
    p: int,
    s: int,
    e: int,
) -> bool {
    &&& from <= s
    &&& occurs_at(patterns, haystack, p, s)
    &&& e == s + patterns[p].len()
    &&& forall|q: int, t: int|
        from <= t && #[trigger] occurs_at(patterns, haystack, q, t) ==> e <= t + patterns[q].len()
}

/// Whether no pattern stands in the haystack at or after `from`.
pub open spec fn no_match_from(patterns: Seq<Seq<u8>>, haystack: Seq<u8>, from: int) -> bool {
    forall|q: int, t: int| from <= t ==> !#[trigger] occurs_at(patterns, haystack, q, t)
}

/// The automaton of the `aho_corasick` crate. It is carried as it is;
/// nothing in it is looked at.
#[verifier::external_type_specification]
#[verifier::external_body]
pub struct ExAhoCorasick(AhoCorasick);

/// The patterns an automaton was built from, in the order given.
pub uninterp spec fn automaton_patterns(ac: AhoCorasick) -> Seq<Seq<u8>>;

/// Builds an automaton with `AhoCorasick::new`, which searches for the given
/// patterns with standard match semantics and numbers them in the order
/// given. Nothing is claimed about when construction succeeds.
#[verifier::external_body]
fn build_automaton(patterns: &Vec<Vec<u8>>) -> (r: Option<AhoCorasick>)
    ensures
        r matches Some(ac) ==> automaton_patterns(ac) == patterns.deep_view(),
{
    AhoCorasick::new(patterns).ok()
}

/// Searches the haystack from `from` on with `AhoCorasick::find`. With
/// standard semantics the automaton reports a match as soon as one is seen:
/// the result is an occurrence of one of its patterns that starts at or after
/// `from`, and no such occurrence ends before it does; `None` means that no
/// pattern occurs there at all. The result holds the pattern's number and the
/// start and end of the match.
#[verifier::external_body]
fn find_earliest(ac: &AhoCorasick, haystack: &[u8], from: usize) -> (r: Option<
    (usize, usize, usize),
>)
    requires
        from <= haystack@.len(),
    ensures
        match r {
            Some((p, s, e)) => is_earliest_match(
                automaton_patterns(*ac),
                haystack@,
                from as int,
                p as int,
                s as int,
                e as int,
            ),
            None => no_match_from(automaton_patterns(*ac), haystack@, from as int),
        },
{
    let m = ac.find(Input::new(haystack).span(from..haystack.len()))?;
    Some((m.pattern().as_usize(), m.start(), m.end()))
}

/// The marker with the given pattern number.
pub open spec fn marker_of(p: int) -> Marker {
    if p == 0 {
        Marker::LineComment
    } else if p == 1 {
        Marker::BlockOpen
    } else if p == 2 {
        Marker::BlockClose
    } else {
        Marker::Quote
    }
}

/// A haystack read as characters, byte by byte.
pub open spec fn haystack_text(haystack: Seq<u8>) -> Seq<char> {
    Seq::new(haystack.len(), |i: int| haystack[i] as char)
}

/// A marker pattern occurs in a haystack exactly where that marker starts
/// in the haystack's text.
pub proof fn lemma_occurs_is_marker(haystack: Seq<u8>, p: int, s: int)
    ensures
        occurs_at(marker_patterns(), haystack, p, s) <==> 0 <= p < 4 && marker_at(
            haystack_text(haystack),
            s,
        ) == Some(marker_of(p)),
{
    let pats = marker_patterns();
    let text = haystack_text(haystack);
    if 0 <= p < 4 && 0 <= s && s + pats[p].len() <= haystack.len() {
        let sub = haystack.subrange(s, s + pats[p].len());
        assert(sub[0] == haystack[s]);
        assert(text[s] == haystack[s] as char);
        if p < 3 {
            assert(sub[1] == haystack[s + 1]);
            assert(text[s + 1] == haystack[s + 1] as char);
        }
        assert(sub == pats[p] <==> (forall|k: int| 0 <= k < pats[p].len() ==> sub[k] == pats[p][k]))
            by {
            if forall|k: int| 0 <= k < pats[p].len() ==> sub[k] == pats[p][k] {
                assert(sub =~= pats[p]);
            }
        }
        assert(pats[p][0] == if p == 0 || p == 1 {
            0x2Fu8
        } else if p == 2 {
            0x2Au8
        } else {
            0x22u8
        });
        if p < 3 {
            assert(pats[p][1] == if p == 0 || p == 2 {
                0x2Fu8
            } else {
                0x2Au8
            });
        }
        assert(0x2Fu8 as char == '/' && 0x2Au8 as char == '*' && 0x22u8 as char == '"');
        lemma_byte_char(haystack[s]);
        if p < 3 {
            lemma_byte_char(haystack[s + 1]);
        }
    }
}

/// Reading a byte as a character tells the three special bytes apart.
proof fn lemma_byte_char(b: u8)
    ensures
        (b as char == '/') == (b == 0x2Fu8),
        (b as char == '*') == (b == 0x2Au8),
        (b as char == '"') == (b == 0x22u8),
{
}

/// The text of a line's haystack has its markers where the line has them.
pub proof fn lemma_haystack_markers(text: Seq<char>, i: int)
    ensures
        marker_at(haystack_text(haystack_of(text)), i) == marker_at(text, i),
{
    let h = haystack_text(haystack_of(text));
    assert(h.len() == text.len());
    if 0 <= i < text.len() {
        lemma_byte_char(marker_byte(text[i]));
        assert(h[i] == marker_byte(text[i]) as char);
        if i + 1 < text.len() {
            lemma_byte_char(marker_byte(text[i + 1]));
            assert(h[i + 1] == marker_byte(text[i + 1]) as char);
        }
    }
}

/// Where no marker starts between `from` and `s` and one starts at `s`, it
/// is the first marker from `from` on.
pub proof fn lemma_first_marker_found(text: Seq<char>, from: int, s: int, m: Marker)
    requires
        0 <= from <= s,
        marker_at(text, s) == Some(m),
        forall|t: int| from <= t < s ==> marker_at(text, t) is None,
    ensures
        first_marker(text, from) == Some((s, m)),
    decreases s - from,
{
    if from < s {
        lemma_first_marker_found(text, from + 1, s, m);
    }
}

/// Where no marker starts at or after `from`, there is no first marker.
pub proof fn lemma_first_marker_none(text: Seq<char>, from: int)
    requires
        0 <= from,
        forall|t: int| from <= t ==> marker_at(text, t) is None,
    ensures
        first_marker(text, from) is None,
    decreases text.len() - from,
{
    if from < text.len() {
        lemma_first_marker_none(text, from + 1);
    }
}

/// What `first_marker` finds: a marker at its position, none before it.
pub proof fn lemma_first_marker(text: Seq<char>, from: int)
    requires
        0 <= from,
    ensures
        match first_marker(text, from) {
            Some((s, m)) => {
                &&& from <= s
                &&& s + marker_len(m) <= text.len()
                &&& marker_at(text, s) == Some(m)
                &&& forall|t: int| from <= t < s ==> marker_at(text, t) is None
            },
            None => forall|t: int| from <= t ==> marker_at(text, t) is None,
        },
    decreases text.len() - from,
{
    if from < text.len() {
        if marker_at(text, from) is None {
            lemma_first_marker(text, from + 1);
        }
    }
}

/// The marker that starts at position `i` of a haystack, if one does.
fn marker_here(haystack: &[u8], i: usize) -> (r: Option<Marker>)
    requires
        i < haystack@.len(),
    ensures
        r == marker_at(haystack_text(haystack@), i as int),
{
    let a: u8 = haystack[i];
    proof {
        lemma_byte_char(a);
        assert(haystack_text(haystack@)[i as int] == a as char);
    }
    if a == 0x22u8 {
        return Some(Marker::Quote);
    }
    if i + 1 >= haystack.len() {
        return None;
    }
    let b: u8 = haystack[i + 1];
    proof {
        lemma_byte_char(b);
        assert(haystack_text(haystack@)[i + 1] == b as char);
    }
    if a == 0x2Fu8 && b == 0x2Fu8 {
        Some(Marker::LineComment)
    } else if a == 0x2Fu8 && b == 0x2Au8 {
        Some(Marker::BlockOpen)
    } else if a == 0x2Au8 && b == 0x2Fu8 {
        Some(Marker::BlockClose)
    } else {
        None
    }
}

/// Finds the first marker at or after `from` by looking at each position.
fn scan_marker(haystack: &[u8], from: usize) -> (r: Option<(usize, Marker)>)
    requires
        from <= haystack@.len(),
    ensures
        found_is_first(r, haystack_text(haystack@), from as int),
{
    let mut i: usize = from;
    while i < haystack.len()
        invariant
            from <= i <= haystack@.len(),
            first_marker(haystack_text(haystack@), from as int) == first_marker(
                haystack_text(haystack@),
                i as int,
            ),
        decreases haystack@.len() - i,
    {
        match marker_here(haystack, i) {
            Some(m) => {
                return Some((i, m));
            },
            None => {},
        }
        i = i + 1;
    }
    None
}

/// Whether the result of a search is the first marker from `from` on.
pub open spec fn found_is_first(r: Option<(usize, Marker)>, text: Seq<char>, from: int) -> bool {
    match r {
        Some((s, m)) => first_marker(text, from) == Some((s as int, m)),
        None => first_marker(text, from) is None,
    }
}

/// The four marker patterns, in the order of their numbers.
fn marker_pattern_bytes() -> (v: Vec<Vec<u8>>)
    ensures
        v.deep_view() == marker_patterns(),
{
    let v: Vec<Vec<u8>> = vec![
        vec![0x2Fu8, 0x2Fu8],
        vec![0x2Fu8, 0x2Au8],
        vec![0x2Au8, 0x2Fu8],
        vec![0x22u8],
    ];
    proof {
        let d = v.deep_view();
        assert(d.len() == 4);
        assert(d[0] =~= marker_patterns()[0]);
        assert(d[1] =~= marker_patterns()[1]);
        assert(d[2] =~= marker_patterns()[2]);
        assert(d[3] =~= marker_patterns()[3]);
        assert(d =~= marker_patterns());
    }
    v
}

/// The searcher for the next marker of a line. It holds the automaton when
/// one could be built, and looks at each position itself when not.
pub struct MarkerMatcher {
    automaton: Option<AhoCorasick>,
}

impl MarkerMatcher {
    #[verifier::type_invariant]
    spec fn holds_markers(self) -> bool {
        self.automaton matches Some(ac) ==> automaton_patterns(ac) == marker_patterns()
    }

    /// A matcher for the four markers.
    pub fn new() -> (m: Self)
        ensures
            m.automaton() matches Some(ac) ==> automaton_patterns(ac) == marker_patterns(),
    {
        let patterns = marker_pattern_bytes();
        MarkerMatcher { automaton: build_automaton(&patterns) }
    }

    /// The automaton the matcher searches with, where one could be built.
    /// Whether one could is not promised: a matcher without one looks at
    /// each position itself and finds the same markers.
    pub closed spec fn automaton(&self) -> Option<AhoCorasick> {
        self.automaton
    }

    /// The first marker of the haystack's text at or after `from`.
    pub fn find(&self, haystack: &[u8], from: usize) -> (r: Option<(usize, Marker)>)
        requires
            from <= haystack@.len(),
        ensures
            found_is_first(r, haystack_text(haystack@), from as int),
    {
        proof {
            use_type_invariant(self);
        }
        match &self.automaton {
            Some(ac) => {
                let found = find_earliest(ac, haystack, from);
                let ghost text = haystack_text(haystack@);
                match found {
                    Some((p, s, e)) => {
                        proof {
                            lemma_occurs_is_marker(haystack@, p as int, s as int);
                            assert forall|t: int| from <= t < s implies marker_at(
                                text,
                                t,
                            ) is None by {
                                if marker_at(text, t) is Some {
                                    let k = marker_index(marker_at(text, t).unwrap());
                                    lemma_occurs_is_marker(haystack@, k, t);
                                    assert(occurs_at(marker_patterns(), haystack@, k, t));
                                }
                            }
                            lemma_first_marker_found(text, from as int, s as int, marker_of(p as int));
                        }
                        Some((s, marker_with_number(p)))
                    },
                    None => {
                        proof {
                            assert forall|t: int| from <= t implies marker_at(text, t) is None by {
                                if marker_at(text, t) is Some {
                                    let k = marker_index(marker_at(text, t).unwrap());
                                    lemma_occurs_is_marker(haystack@, k, t);
                                    assert(occurs_at(marker_patterns(), haystack@, k, t));
                                }
                            }
                            lemma_first_marker_none(text, from as int);
                        }
                        None
                    },
                }
            },
            None => scan_marker(haystack, from),
        }
    }
}

/// The pattern number of a marker.
pub open spec fn marker_index(m: Marker) -> int {
    match m {
        Marker::LineComment => 0,
        Marker::BlockOpen => 1,
        Marker::BlockClose => 2,
        Marker::Quote => 3,
    }
}

/// The marker with the given pattern number.
fn marker_with_number(p: usize) -> (m: Marker)
    requires
        p < 4,
    ensures
        m == marker_of(p as int),
{
    if p == 0 {
        Marker::LineComment
    } else if p == 1 {
        Marker::BlockOpen
    } else if p == 2 {
        Marker::BlockClose
    } else {
        Marker::Quote
    }
}

} // verus!
