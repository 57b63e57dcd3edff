//! The comment and quote scanner: it blanks comments, leaves quoted text
//! alone, and keeps every line exactly as long as it was.

use crate::matcher::first_marker;
use crate::matcher::has_special;
use crate::matcher::haystack_of;
use crate::matcher::haystack_text;
use crate::matcher::is_special;
use crate::matcher::lemma_first_marker;
use crate::matcher::lemma_haystack_markers;
use crate::matcher::marker_at;
use crate::matcher::marker_len;
use crate::matcher::Marker;
use crate::matcher::MarkerMatcher;
use crate::text::find_line_end;
use crate::text::lemma_line_end;
use crate::text::line_between;
use crate::text::lines_from;
use crate::text::lines_of;
use std::borrow::Cow;
use vstd::prelude::*;

verus! {

/// What the scanner is inside of, as contracts see it.
pub enum Mode {
    /// Plain source text.
    Code,
    /// A block comment, nested to the given depth.
    Comment(nat),
    /// A quoted string.
    Quoted,
}

/// The state the scanner carries from one line to the next.
#[derive(Clone, Copy, Debug, PartialEq, Eq)]
pub enum ScanState {
    /// Plain source text.
    Code,
    /// Inside a block comment; the depth counts the open `/*` and is at
    /// least 1.
    BlockComment(usize),
    /// Inside a quoted string.
    Quote,
}

impl View for ScanState {
    type V = Mode;

    open spec fn view(&self) -> Mode {
        match *self {
            ScanState::Code => Mode::Code,
            ScanState::BlockComment(d) => Mode::Comment(d as nat),
            ScanState::Quote => Mode::Quoted,
        }
    }
}

impl ScanState {
    /// A block comment has a depth of at least 1.
    pub open spec fn wf(&self) -> bool {
        mode_wf(self@)
    }

    /// The depth of the block comment the state is in, 0 outside of one.
    pub open spec fn depth(&self) -> nat {
        mode_depth(self@)
    }
}

/// A block comment has a depth of at least 1.
pub open spec fn mode_wf(mode: Mode) -> bool {
    mode matches Mode::Comment(d) ==> d >= 1
}

/// The depth of the block comment a mode is in, 0 outside of one.
pub open spec fn mode_depth(mode: Mode) -> nat {
    match mode {
        Mode::Comment(d) => d,
        _ => 0,
    }
}

/// A cleaned line together with the mode the scanner is left in.
pub struct Scanned {
    pub text: Seq<char>,
    pub mode: Mode,
}

/// `n` spaces.
pub open spec fn blank(n: int) -> Seq<char> {
    Seq::new(n as nat, |i: int| ' ')
}

/// What becomes of text that holds no marker: blanked inside a block
/// comment, kept everywhere else.
pub open spec fn plain(mode: Mode, text: Seq<char>) -> Seq<char> {
    if mode is Comment {
        blank(text.len() as int)
    } else {
        text
    }
}

/// Whether a marker met in `mode` is itself replaced by spaces: every marker
/// inside a block comment, and the `/*` that opens one.
pub open spec fn marker_blanked(mode: Mode, m: Marker) -> bool {
    mode is Comment || (mode is Code && m == Marker::BlockOpen)
}

/// The mode after a marker met in `mode`. A `//` in plain code ends the scan
/// of its line and is not asked for here.
pub open spec fn mode_after(mode: Mode, m: Marker) -> Mode {
    match mode {
        Mode::Code => match m {
            Marker::BlockOpen => Mode::Comment(1),
            Marker::Quote => Mode::Quoted,
            _ => Mode::Code,
        },
        Mode::Comment(d) => match m {
            Marker::BlockOpen => Mode::Comment(d + 1),
            Marker::BlockClose => if d <= 1 {
                Mode::Code
            } else {
                Mode::Comment((d - 1) as nat)
            },
            _ => Mode::Comment(d),
        },
        Mode::Quoted => match m {
            Marker::Quote => Mode::Code,
            _ => Mode::Quoted,
        },
    }
}

/// The scan of a line from position `i` on, entered in `mode`: the cleaned
/// rest of the line and the mode at its end.
pub open spec fn scan_from(text: Seq<char>, i: int, mode: Mode) -> Scanned
    decreases text.len() - i,
{
    if i < 0 || i >= text.len() {
        Scanned { text: Seq::empty(), mode }
    } else {
        match marker_at(text, i) {
            None => {
                let rest = scan_from(text, i + 1, mode);
                Scanned { text: plain(mode, seq![text[i]]) + rest.text, mode: rest.mode }
            },
            Some(m) => {
                if mode is Code && m == Marker::LineComment {
                    Scanned { text: blank(text.len() - i), mode: Mode::Code }
                } else {
                    let n = marker_len(m);
                    let rest = scan_from(text, i + n, mode_after(mode, m));
                    let shown = if marker_blanked(mode, m) {
                        blank(n)
                    } else {
                        text.subrange(i, i + n)
                    };
                    Scanned { text: shown + rest.text, mode: rest.mode }
                }
            },
        }
    }
}

/// The scan of a whole line entered in `mode`.
pub open spec fn scan_line(text: Seq<char>, mode: Mode) -> Scanned {
    scan_from(text, 0, mode)
}

/// The cleaned form of a line that is scanned on its own, from plain code.
pub open spec fn clean(line: Seq<char>) -> Seq<char> {
    scan_line(line, Mode::Code).text
}

/// A scan keeps the length of what it scans, changes a character only into
/// a space, keeps modes well formed, and deepens a comment by at most one
/// level for every two characters.
pub proof fn lemma_scan_from(text: Seq<char>, i: int, mode: Mode)
    requires
        0 <= i <= text.len(),
    ensures
        scan_from(text, i, mode).text.len() == text.len() - i,
        forall|k: int|
            0 <= k < text.len() - i ==> {
                let c = #[trigger] scan_from(text, i, mode).text[k];
                c == text[i + k] || c == ' '
            },
        mode_wf(mode) ==> mode_wf(scan_from(text, i, mode).mode),
        2 * mode_depth(scan_from(text, i, mode).mode) <= 2 * mode_depth(mode) + (text.len() - i),
    decreases text.len() - i,
{
    if i < text.len() {
        match marker_at(text, i) {
            None => {
                lemma_scan_from(text, i + 1, mode);
                let rest = scan_from(text, i + 1, mode);
                assert forall|k: int| 0 <= k < text.len() - i implies {
                    let c = #[trigger] scan_from(text, i, mode).text[k];
                    c == text[i + k] || c == ' '
                } by {
                    if k > 0 {
                        assert(scan_from(text, i, mode).text[k] == rest.text[k - 1]);
                    }
                }
            },
            Some(m) => {
                if !(mode is Code && m == Marker::LineComment) {
                    let n = marker_len(m);
                    lemma_scan_from(text, i + n, mode_after(mode, m));
                    let rest = scan_from(text, i + n, mode_after(mode, m));
                    assert forall|k: int| 0 <= k < text.len() - i implies {
                        let c = #[trigger] scan_from(text, i, mode).text[k];
                        c == text[i + k] || c == ' '
                    } by {
                        if k >= n {
                            assert(scan_from(text, i, mode).text[k] == rest.text[k - n]);
                        }
                    }
                }
            },
        }
    }
}

/// Text without a marker is scanned as `plain` text and leaves the mode as
/// it was.
pub proof fn lemma_scan_plain(text: Seq<char>, i: int, j: int, mode: Mode)
    requires
        0 <= i <= j <= text.len(),
        forall|t: int| i <= t < j ==> marker_at(text, t) is None,
    ensures
        scan_from(text, i, mode).text == plain(mode, text.subrange(i, j)) + scan_from(
            text,
            j,
            mode,
        ).text,
        scan_from(text, i, mode).mode == scan_from(text, j, mode).mode,
    decreases j - i,
{
    if i < j {
        lemma_scan_plain(text, i + 1, j, mode);
        assert(scan_from(text, i, mode).text =~= plain(mode, text.subrange(i, j)) + scan_from(
            text,
            j,
            mode,
        ).text);
    } else {
        assert(scan_from(text, i, mode).text =~= plain(mode, text.subrange(i, j)) + scan_from(
            text,
            j,
            mode,
        ).text);
    }
}

/// Whether a line holds one of the characters `/`, `"` and `*`.
pub fn has_special_chars(line: &[char]) -> (b: bool)
    ensures
        b == has_special(line@),
{
    let mut i: usize = 0;
    while i < line.len()
        invariant
            i <= line@.len(),
            forall|k: int| 0 <= k < i ==> !is_special(#[trigger] line@[k]),
        decreases line@.len() - i,
    {
        let c = line[i];
        if c == '/' || c == '"' || c == '*' {
            return true;
        }
        i = i + 1;
    }
    false
}

/// The haystack of a line, in which the matcher looks for markers.
pub fn haystack_bytes(line: &[char]) -> (h: Vec<u8>)
    ensures
        h@ == haystack_of(line@),
{
    let mut h: Vec<u8> = Vec::with_capacity(line.len());
    let mut i: usize = 0;
    while i < line.len()
        invariant
            i <= line@.len(),
            h@ == haystack_of(line@.take(i as int)),
        decreases line@.len() - i,
    {
        let c = line[i];
        let b: u8 = if c == '/' {
            0x2Fu8
        } else if c == '*' {
            0x2Au8
        } else if c == '"' {
            0x22u8
        } else {
            0x20u8
        };
        h.push(b);
        i = i + 1;
        assert(h@ =~= haystack_of(line@.take(i as int)));
    }
    assert(line@.take(line@.len() as int) == line@);
    h
}

/// A line without one of the characters `/`, `"` and `*` holds no marker.
pub proof fn lemma_no_special_no_marker(text: Seq<char>)
    requires
        !has_special(text),
    ensures
        forall|t: int| marker_at(text, t) is None,
{
    assert forall|t: int| marker_at(text, t) is None by {
        if 0 <= t < text.len() {
            assert(!is_special(text[t]));
        }
    }
}

/// A line's haystack has its first marker where the line has it.
pub proof fn lemma_haystack_first_marker(text: Seq<char>, from: int)
    ensures
        first_marker(haystack_text(haystack_of(text)), from) == first_marker(text, from),
    decreases text.len() - from,
{
    let h = haystack_text(haystack_of(text));
    assert(h.len() == text.len());
    if 0 <= from < text.len() {
        lemma_haystack_markers(text, from);
        lemma_haystack_first_marker(text, from + 1);
    }
}

/// A cleaned line: the input line itself where cleaning changed nothing,
/// a buffer of its own where it did.
#[derive(Debug)]
pub enum CleanedLine<'a> {
    /// The line as it was given.
    Borrowed(&'a [char]),
    /// The line with comments blanked.
    Owned(Vec<char>),
}

impl<'a> View for CleanedLine<'a> {
    type V = Seq<char>;

    open spec fn view(&self) -> Seq<char> {
        match self {
            CleanedLine::Borrowed(line) => line@,
            CleanedLine::Owned(buffer) => buffer@,
        }
    }
}

impl<'a> CleanedLine<'a> {
    /// The characters of the cleaned line.
    pub fn as_slice(&self) -> (chars: &[char])
        ensures
            chars@ == self@,
    {
        match self {
            CleanedLine::Borrowed(line) => line,
            CleanedLine::Owned(buffer) => buffer.as_slice(),
        }
    }

    /// The number of characters of the cleaned line.
    pub fn len(&self) -> (n: usize)
        ensures
            n == self@.len(),
    {
        self.as_slice().len()
    }

    /// Whether the cleaned line is the input line itself.
    pub fn is_borrowed(&self) -> (b: bool)
        ensures
            b == (self is Borrowed),
    {
        match self {
            CleanedLine::Borrowed(_) => true,
            CleanedLine::Owned(_) => false,
        }
    }

    /// The cleaned line as a string.
    pub fn to_string(&self) -> (s: String)
        ensures
            s@ == self@,
    {
        crate::text::string_of(self.as_slice())
    }
}

/// Appends `n` spaces to the buffer.
fn push_blanks(buffer: &mut Vec<char>, n: usize)
    ensures
        final(buffer)@ == old(buffer)@ + blank(n as int),
{
    let mut k: usize = 0;
    while k < n
        invariant
            k <= n,
            buffer@ == old(buffer)@ + blank(k as int),
        decreases n - k,
    {
        buffer.push(' ');
        k = k + 1;
        assert(buffer@ =~= old(buffer)@ + blank(k as int));
    }
}

/// Appends the characters of the line between `from` and `to` to the buffer.
fn push_span(buffer: &mut Vec<char>, line: &[char], from: usize, to: usize)
    requires
        from <= to <= line@.len(),
    ensures
        final(buffer)@ == old(buffer)@ + line@.subrange(from as int, to as int),
{
    let mut k: usize = from;
    while k < to
        invariant
            from <= k <= to <= line@.len(),
            buffer@ == old(buffer)@ + line@.subrange(from as int, k as int),
        decreases to - k,
    {
        buffer.push(line[k]);
        k = k + 1;
        assert(buffer@ =~= old(buffer)@ + line@.subrange(from as int, k as int));
    }
}

/// Appends what becomes of marker-free text of the line in the given state.
fn push_plain(buffer: &mut Vec<char>, line: &[char], from: usize, to: usize, state: ScanState)
    requires
        from <= to <= line@.len(),
    ensures
        final(buffer)@ == old(buffer)@ + plain(state@, line@.subrange(from as int, to as int)),
{
    match state {
        ScanState::BlockComment(_) => push_blanks(buffer, to - from),
        _ => push_span(buffer, line, from, to),
    }
}

/// Whether two slices hold the same characters.
fn same_chars(a: &[char], b: &[char]) -> (same: bool)
    ensures
        same == (a@ == b@),
{
    if a.len() != b.len() {
        return false;
    }
    let mut k: usize = 0;
    while k < a.len()
        invariant
            k <= a@.len(),
            a@.len() == b@.len(),
            forall|j: int| 0 <= j < k ==> a@[j] == b@[j],
        decreases a@.len() - k,
    {
        if a[k] != b[k] {
            return false;
        }
        k = k + 1;
    }
    assert(a@ =~= b@);
    true
}

/// The state after a marker met in `state`.
fn state_after(state: ScanState, m: Marker) -> (next: ScanState)
    requires
        state.wf(),
        state.depth() < usize::MAX,
    ensures
        next@ == mode_after(state@, m),
        next.wf(),
{
    match state {
        ScanState::Code => match m {
            Marker::BlockOpen => ScanState::BlockComment(1),
            Marker::Quote => ScanState::Quote,
            _ => ScanState::Code,
        },
        ScanState::BlockComment(d) => match m {
            Marker::BlockOpen => ScanState::BlockComment(d + 1),
            Marker::BlockClose => if d == 1 {
                ScanState::Code
            } else {
                ScanState::BlockComment(d - 1)
            },
            _ => ScanState::BlockComment(d),
        },
        ScanState::Quote => match m {
            Marker::Quote => ScanState::Code,
            _ => ScanState::Quote,
        },
    }
}

/// Cleans one line that is entered in `state`.
///
/// Comments become spaces, quoted text and plain code stay as they are, and
/// the result is as long as the line. The second component is the state in
/// which the next line is entered. The line itself is handed back where
/// cleaning changed nothing, which is so whenever a line entered in plain
/// code holds none of `/`, `"` and `*`.
pub fn clean_line<'a>(matcher: &MarkerMatcher, line: &'a [char], state: ScanState) -> (r: (
    CleanedLine<'a>,
    ScanState,
))
    requires
        state.wf(),
        state.depth() + line@.len() <= usize::MAX,
    ensures
        r.0@ == scan_line(line@, state@).text,
        r.1@ == scan_line(line@, state@).mode,
        r.1.wf(),
        r.0@.len() == line@.len(),
        2 * r.1.depth() <= 2 * state.depth() + line@.len(),
        r.0 is Borrowed <==> r.0@ == line@,
        r.0 matches CleanedLine::Borrowed(kept) ==> kept == line,
        state is Code && !has_special(line@) ==> r.0 is Borrowed && r.1 is Code,
{
    proof {
        lemma_scan_from(line@, 0, state@);
    }
    let is_code = match state {
        ScanState::Code => true,
        _ => false,
    };
    if is_code && !has_special_chars(line) {
        proof {
            lemma_no_special_no_marker(line@);
            lemma_scan_plain(line@, 0, line@.len() as int, state@);
            assert(line@.subrange(0, line@.len() as int) == line@);
            assert(scan_line(line@, state@).text =~= line@);
        }
        return (CleanedLine::Borrowed(line), ScanState::Code);
    }
    let haystack = haystack_bytes(line);
    let mut buffer: Vec<char> = Vec::new();
    let mut last_end: usize = 0;
    let mut current = state;
    loop
        invariant
            haystack@ == haystack_of(line@),
            last_end <= line@.len(),
            buffer@.len() == last_end,
            current.wf(),
            state.depth() + line@.len() <= usize::MAX,
            2 * current.depth() <= 2 * state.depth() + last_end,
            scan_line(line@, state@).text == buffer@ + scan_from(
                line@,
                last_end as int,
                current@,
            ).text,
            scan_line(line@, state@).mode == scan_from(line@, last_end as int, current@).mode,
        ensures
            last_end <= line@.len(),
            buffer@.len() == last_end,
            current.wf(),
            scan_line(line@, state@).text == buffer@ + plain(
                current@,
                line@.subrange(last_end as int, line@.len() as int),
            ),
            scan_line(line@, state@).mode == current@,
        decreases line@.len() - last_end,
    {
        let found = matcher.find(haystack.as_slice(), last_end);
        proof {
            lemma_haystack_first_marker(line@, last_end as int);
            lemma_first_marker(line@, last_end as int);
        }
        match found {
            None => {
                proof {
                    lemma_scan_plain(line@, last_end as int, line@.len() as int, current@);
                    assert(scan_from(line@, line@.len() as int, current@).text =~= Seq::<
                        char,
                    >::empty());
                    assert(plain(current@, line@.subrange(last_end as int, line@.len() as int))
                        + Seq::<char>::empty() =~= plain(
                        current@,
                        line@.subrange(last_end as int, line@.len() as int),
                    ));
                }
                break ;
            },
            Some((start, m)) => {
                let ghost before = buffer@;
                proof {
                    lemma_scan_plain(line@, last_end as int, start as int, current@);
                }
                push_plain(&mut buffer, line, last_end, start, current);
                let line_comment = match (current, m) {
                    (ScanState::Code, Marker::LineComment) => true,
                    _ => false,
                };
                if line_comment {
                    push_blanks(&mut buffer, line.len() - start);
                    proof {
                        assert(buffer@ =~= before + (plain(
                            current@,
                            line@.subrange(last_end as int, start as int),
                        ) + blank(line@.len() - start)));
                        assert(plain(
                            current@,
                            line@.subrange(line@.len() as int, line@.len() as int),
                        ) =~= Seq::<char>::empty());
                        assert(buffer@ + Seq::<char>::empty() =~= buffer@);
                    }
                    last_end = line.len();
                    break ;
                }
                let width: usize = match m {
                    Marker::Quote => 1,
                    _ => 2,
                };
                let blanked = match (current, m) {
                    (ScanState::BlockComment(_), _) => true,
                    (ScanState::Code, Marker::BlockOpen) => true,
                    _ => false,
                };
                if blanked {
                    push_blanks(&mut buffer, width);
                } else {
                    push_span(&mut buffer, line, start, start + width);
                }
                proof {
                    let shown = if marker_blanked(current@, m) {
                        blank(width as int)
                    } else {
                        line@.subrange(start as int, start + width)
                    };
                    assert(buffer@ =~= before + (plain(
                        current@,
                        line@.subrange(last_end as int, start as int),
                    ) + shown));
                    assert(scan_line(line@, state@).text =~= buffer@ + scan_from(
                        line@,
                        start + width,
                        mode_after(current@, m),
                    ).text);
                }
                current = state_after(current, m);
                last_end = start + width;
            },
        }
    }
    push_plain(&mut buffer, line, last_end, line.len(), current);
    if same_chars(buffer.as_slice(), line) {
        (CleanedLine::Borrowed(line), current)
    } else {
        (CleanedLine::Owned(buffer), current)
    }
}

/// Whether a string holds one of the characters `/`, `"` and `*`.
pub fn str_has_special_chars(line: &str) -> (b: bool)
    ensures
        b == has_special(line@),
{
    let mut found = false;
    let mut it = line.chars();
    for c in iter: it
        invariant
            iter.seq() == line@,
            found == has_special(line@.take(iter.index as int)),
    {
        let ghost seen = line@.take(iter.index as int);
        if c == '/' || c == '"' || c == '*' {
            found = true;
        }
        proof {
            let more = line@.take(iter.index + 1);
            assert(more[iter.index as int] == c);
            if has_special(seen) {
                let k = choose|k: int| 0 <= k < seen.len() && is_special(#[trigger] seen[k]);
                assert(more[k] == seen[k]);
            }
            if has_special(more) && !is_special(c) {
                let k = choose|k: int| 0 <= k < more.len() && is_special(#[trigger] more[k]);
                assert(seen[k] == more[k]);
            }
        }
    }
    assert(line@.take(line@.len() as int) =~= line@);
    found
}

/// Cleans one line of a string, entered in `state`, as [`clean_line`] does.
/// The line itself is handed back, borrowed, where cleaning changed nothing.
pub fn clean_str_line<'a>(matcher: &MarkerMatcher, line: &'a str, state: ScanState) -> (r: (
    Cow<'a, str>,
    ScanState,
))
    requires
        state.wf(),
        state.depth() + line@.len() <= usize::MAX,
    ensures
        r.0@ == scan_line(line@, state@).text,
        r.1@ == scan_line(line@, state@).mode,
        r.1.wf(),
        r.0@.len() == line@.len(),
        2 * r.1.depth() <= 2 * state.depth() + line@.len(),
        r.0 is Borrowed <==> r.0@ == line@,
        r.0 matches Cow::Borrowed(kept) ==> kept == line,
        state is Code && !has_special(line@) ==> r.0 is Borrowed && r.1 is Code,
{
    let is_code = match state {
        ScanState::Code => true,
        _ => false,
    };
    if is_code && !str_has_special_chars(line) {
        proof {
            lemma_no_special_no_marker(line@);
            lemma_scan_plain(line@, 0, line@.len() as int, state@);
            assert(line@.subrange(0, line@.len() as int) == line@);
            assert(scan_line(line@, state@).text =~= line@);
        }
        return (Cow::Borrowed(line), ScanState::Code);
    }
    let chars = crate::text::chars_of(line);
    let (cleaned, next) = clean_line(matcher, chars.as_slice(), state);
    match cleaned {
        CleanedLine::Borrowed(_) => (Cow::Borrowed(line), next),
        CleanedLine::Owned(buffer) => (
            Cow::Owned(crate::text::string_of(buffer.as_slice())),
            next,
        ),
    }
}

/// The cleaned lines of a text whose first line is entered in `mode`: each
/// line is entered in the mode its predecessor was left in.
pub open spec fn clean_lines(lines: Seq<Seq<char>>, mode: Mode) -> Seq<Seq<char>>
    decreases lines.len(),
{
    if lines.len() == 0 {
        Seq::empty()
    } else {
        let first = scan_line(lines[0], mode);
        seq![first.text] + clean_lines(lines.drop_first(), first.mode)
    }
}

/// The cleaned lines of a text.
pub open spec fn cleaned_text(text: Seq<char>) -> Seq<Seq<char>> {
    clean_lines(lines_of(text), Mode::Code)
}

/// The scanner at work on a text: it hands out the cleaned lines one by one
/// and carries its state from each line to the next.
pub struct CommentReplaceIter<'a> {
    text: &'a [char],
    pos: usize,
    state: ScanState,
    matcher: MatcherHandle<'a>,
}

/// The matcher a scanner works with: one of its own, or one that it shares
/// with other scanners.
enum MatcherHandle<'a> {
    Own(MarkerMatcher),
    Shared(&'a MarkerMatcher),
}

impl<'a> CommentReplaceIter<'a> {
    #[verifier::type_invariant]
    spec fn inv(self) -> bool {
        &&& self.pos <= self.text@.len()
        &&& self.state.wf()
        &&& self.state.depth() <= self.pos
    }

    /// The lines that have not been handed out yet, as they are in the text.
    pub closed spec fn remaining(&self) -> Seq<Seq<char>> {
        lines_from(self.text@, self.pos as int)
    }

    /// The mode in which the next line is entered.
    pub closed spec fn mode(&self) -> Mode {
        self.state@
    }

    /// A scanner at the start of the text, in plain code.
    pub fn new(text: &'a [char]) -> (iter: Self)
        ensures
            iter.remaining() == lines_of(text@),
            iter.mode() == Mode::Code,
    {
        CommentReplaceIter {
            text,
            pos: 0,
            state: ScanState::Code,
            matcher: MatcherHandle::Own(MarkerMatcher::new()),
        }
    }

    /// A scanner at the start of the text, in plain code, that searches with
    /// a matcher built elsewhere. One matcher serves any number of scanners,
    /// one after another or side by side.
    pub fn with_matcher(text: &'a [char], matcher: &'a MarkerMatcher) -> (iter: Self)
        ensures
            iter.remaining() == lines_of(text@),
            iter.mode() == Mode::Code,
    {
        CommentReplaceIter {
            text,
            pos: 0,
            state: ScanState::Code,
            matcher: MatcherHandle::Shared(matcher),
        }
    }

    /// The state in which the next line is entered.
    pub fn state(&self) -> (state: ScanState)
        ensures
            state@ == self.mode(),
            state.wf(),
    {
        proof {
            use_type_invariant(self);
        }
        self.state
    }

    /// The next cleaned line, or `None` when every line has been handed out.
    ///
    /// The line is the input line itself where cleaning changed nothing.
    pub fn next(&mut self) -> (r: Option<CleanedLine<'a>>)
        ensures
            match r {
                None => {
                    &&& old(self).remaining().len() == 0
                    &&& final(self).remaining() == old(self).remaining()
                    &&& final(self).mode() == old(self).mode()
                },
                Some(line) => {
                    &&& old(self).remaining().len() > 0
                    &&& line@ == scan_line(old(self).remaining()[0], old(self).mode()).text
                    &&& final(self).mode() == scan_line(
                        old(self).remaining()[0],
                        old(self).mode(),
                    ).mode
                    &&& final(self).remaining() == old(self).remaining().drop_first()
                    &&& line is Borrowed <==> line@ == old(self).remaining()[0]
                    &&& old(self).mode() is Code && !has_special(old(self).remaining()[0])
                        ==> line is Borrowed
                },
            },
    {
        proof {
            use_type_invariant(&*self);
        }
        let text: &'a [char] = self.text;
        let pos = self.pos;
        if pos >= text.len() {
            return None;
        }
        let end = find_line_end(text, pos);
        proof {
            lemma_line_end(text@, pos as int);
        }
        let stop = if end < text.len() && pos < end && text[end - 1] == '\r' {
            end - 1
        } else {
            end
        };
        let next = if end < text.len() {
            end + 1
        } else {
            end
        };
        let line: &'a [char] = vstd::slice::slice_subrange(text, pos, stop);
        assert(line@ == line_between(text@, pos as int, end as int));
        assert(old(self).remaining() =~= seq![line@] + lines_from(text@, next as int));
        assert(old(self).remaining().drop_first() =~= lines_from(text@, next as int));
        let (cleaned, state) = match &self.matcher {
            MatcherHandle::Own(matcher) => clean_line(matcher, line, self.state),
            MatcherHandle::Shared(matcher) => clean_line(matcher, line, self.state),
        };
        self.pos = next;
        self.state = state;
        Some(cleaned)
    }
}

/// Scanning for comments, offered on the text itself.
pub trait CommentReplaceExt<'a> {
    /// A scanner at the start of this text.
    fn replace_comments(self) -> CommentReplaceIter<'a>;
}

impl<'a> CommentReplaceExt<'a> for &'a [char] {
    fn replace_comments(self) -> (iter: CommentReplaceIter<'a>)
        ensures
            iter.remaining() == lines_of(self@),
            iter.mode() == Mode::Code,
    {
        CommentReplaceIter::new(self)
    }
}

/// The cleaned lines of a text, each as a string.
pub fn replace_comments(content: &str) -> (lines: Vec<String>)
    ensures
        lines.deep_view() == cleaned_text(content@),
{
    let matcher = MarkerMatcher::new();
    replace_comments_with(&matcher, content)
}

/// The cleaned lines of a text, each as a string, found with a matcher built
/// elsewhere.
pub fn replace_comments_with(matcher: &MarkerMatcher, content: &str) -> (lines: Vec<String>)
    ensures
        lines.deep_view() == cleaned_text(content@),
{
    let chars = crate::text::chars_of(content);
    let mut iter = CommentReplaceIter::with_matcher(chars.as_slice(), matcher);
    let mut lines: Vec<String> = Vec::new();
    proof {
        assert(lines.deep_view() + cleaned_text(content@) =~= cleaned_text(content@));
    }
    loop
        invariant_except_break
            cleaned_text(content@) == lines.deep_view() + clean_lines(
                iter.remaining(),
                iter.mode(),
            ),
        ensures
            lines.deep_view() == cleaned_text(content@),
        decreases iter.remaining().len(),
    {
        let ghost rest = clean_lines(iter.remaining(), iter.mode());
        let ghost before = lines.deep_view();
        match iter.next() {
            None => {
                proof {
                    assert(rest =~= Seq::<Seq<char>>::empty());
                    assert(before + rest =~= before);
                }
                break ;
            },
            Some(cleaned) => {
                lines.push(cleaned.to_string());
                proof {
                    assert(lines.deep_view() =~= before.push(cleaned@));
                    assert(rest.drop_first() =~= clean_lines(iter.remaining(), iter.mode()));
                    assert(before + rest =~= before.push(cleaned@) + rest.drop_first());
                }
            },
        }
    }
    lines
}

} // verus!
