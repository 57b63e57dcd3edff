//! What holds of the scanner for every line and every text.

use crate::matcher::has_special;
use crate::matcher::marker_at;
use crate::matcher::marker_len;
use crate::matcher::Marker;
use crate::scanner::blank;
use crate::scanner::clean;
use crate::scanner::clean_lines;
use crate::scanner::lemma_no_special_no_marker;
use crate::scanner::lemma_scan_from;
use crate::scanner::lemma_scan_plain;
use crate::scanner::marker_blanked;
use crate::scanner::mode_after;
use crate::scanner::mode_depth;
use crate::scanner::scan_from;
use crate::scanner::scan_line;
use crate::scanner::Mode;
use vstd::prelude::*;

verus! {

/// The mode in which a cleaned line is entered when it is scanned again:
/// block comments are gone from it, quotes are still there.
pub open spec fn mode_cleaned(mode: Mode) -> Mode {
    match mode {
        Mode::Quoted => Mode::Quoted,
        _ => Mode::Code,
    }
}

/// A scan reads only what lies at and after its position: two texts that
/// agree from there on are scanned alike.
pub proof fn lemma_scan_suffix(a: Seq<char>, i: int, b: Seq<char>, j: int, mode: Mode)
    requires
        0 <= i <= a.len(),
        0 <= j <= b.len(),
        a.subrange(i, a.len() as int) == b.subrange(j, b.len() as int),
    ensures
        scan_from(a, i, mode) == scan_from(b, j, mode),
    decreases a.len() - i,
{
    let sa = a.subrange(i, a.len() as int);
    let sb = b.subrange(j, b.len() as int);
    assert(sa.len() == a.len() - i && sb.len() == b.len() - j);
    if i < a.len() {
        assert(a[i] == sa[0] && b[j] == sb[0]);
        if i + 1 < a.len() {
            assert(a[i + 1] == sa[1] && b[j + 1] == sb[1]);
        }
        assert(marker_at(a, i) == marker_at(b, j));
        let n = match marker_at(a, i) {
            None => 1,
            Some(m) => marker_len(m),
        };
        assert(a.subrange(i + n, a.len() as int) =~= sa.subrange(n, sa.len() as int));
        assert(b.subrange(j + n, b.len() as int) =~= sb.subrange(n, sb.len() as int));
        match marker_at(a, i) {
            None => {
                lemma_scan_suffix(a, i + 1, b, j + 1, mode);
            },
            Some(m) => {
                lemma_scan_suffix(a, i + n, b, j + n, mode_after(mode, m));
                assert(a.subrange(i, i + n) =~= sa.subrange(0, n));
                assert(b.subrange(j, j + n) =~= sb.subrange(0, n));
            },
        }
    }
}

/// Blank text is scanned in plain code without change.
pub proof fn lemma_scan_blank(text: Seq<char>, i: int)
    requires
        0 <= i <= text.len(),
        forall|k: int| i <= k < text.len() ==> text[k] == ' ',
    ensures
        scan_from(text, i, Mode::Code).text == text.subrange(i, text.len() as int),
        scan_from(text, i, Mode::Code).mode == Mode::Code,
{
    assert forall|t: int| i <= t < text.len() implies marker_at(text, t) is None by {}
    lemma_scan_plain(text, i, text.len() as int, Mode::Code);
    assert(scan_from(text, text.len() as int, Mode::Code).text =~= Seq::<char>::empty());
    assert(text.subrange(i, text.len() as int) + Seq::<char>::empty() =~= text.subrange(
        i,
        text.len() as int,
    ));
}

/// What a scan has cleaned, a second scan leaves alone: scanned again, in
/// the mode that outlasts cleaning, the cleaned text comes out unchanged,
/// and the second scan ends in the mode that outlasts the first one's.
pub proof fn lemma_rescan(text: Seq<char>, i: int, mode: Mode)
    requires
        0 <= i <= text.len(),
    ensures
        scan_line(scan_from(text, i, mode).text, mode_cleaned(mode)).text == scan_from(
            text,
            i,
            mode,
        ).text,
        scan_line(scan_from(text, i, mode).text, mode_cleaned(mode)).mode == mode_cleaned(
            scan_from(text, i, mode).mode,
        ),
    decreases text.len() - i,
{
    let c = scan_from(text, i, mode).text;
    let again = mode_cleaned(mode);
    lemma_scan_from(text, i, mode);
    if i < text.len() {
        match marker_at(text, i) {
            None => {
                let rest = scan_from(text, i + 1, mode);
                lemma_scan_from(text, i + 1, mode);
                lemma_rescan(text, i + 1, mode);
                assert(c.subrange(1, c.len() as int) =~= rest.text);
                assert(rest.text.subrange(0, rest.text.len() as int) =~= rest.text);
                lemma_scan_suffix(c, 1, rest.text, 0, again);
                if c.len() > 1 {
                    assert(c[1] == rest.text[0]);
                    assert(rest.text[0] == text[i + 1] || rest.text[0] == ' ');
                }
                assert(marker_at(c, 0) is None);
                assert(scan_from(c, 0, again).text =~= c);
            },
            Some(m) => {
                if mode is Code && m == Marker::LineComment {
                    lemma_scan_blank(c, 0);
                    assert(c.subrange(0, c.len() as int) =~= c);
                } else {
                    let n = marker_len(m);
                    let next = mode_after(mode, m);
                    let rest = scan_from(text, i + n, next);
                    lemma_scan_from(text, i + n, next);
                    lemma_rescan(text, i + n, next);
                    assert(c.subrange(n, c.len() as int) =~= rest.text);
                    assert(rest.text.subrange(0, rest.text.len() as int) =~= rest.text);
                    if marker_blanked(mode, m) {
                        assert(mode_cleaned(next) == Mode::Code);
                        assert(again == Mode::Code);
                        assert(c[0] == ' ');
                        assert(marker_at(c, 0) is None);
                        if n == 2 {
                            assert(c[1] == ' ');
                            assert(marker_at(c, 1) is None);
                        }
                        lemma_scan_plain(c, 0, n, Mode::Code);
                        lemma_scan_suffix(c, n, rest.text, 0, Mode::Code);
                        assert(c.subrange(0, n) =~= blank(n));
                        assert(scan_from(c, 0, again).text =~= c);
                    } else {
                        assert(c[0] == text[i]);
                        if n == 2 {
                            assert(c[1] == text[i + 1]);
                        }
                        assert(marker_at(c, 0) == Some(m));
                        assert(mode_after(again, m) == mode_cleaned(next));
                        lemma_scan_suffix(c, n, rest.text, 0, mode_cleaned(next));
                        assert(c.subrange(0, n) =~= text.subrange(i, i + n));
                        assert(scan_from(c, 0, again).text =~= c);
                    }
                }
            },
        }
    } else {
        assert(c =~= Seq::<char>::empty());
    }
}

/// A cleaned line is as long as the line it was made from, whatever the
/// mode the line was entered in.
pub proof fn lemma_clean_keeps_length(line: Seq<char>, mode: Mode)
    ensures
        scan_line(line, mode).text.len() == line.len(),
{
    lemma_scan_from(line, 0, mode);
}

/// Every character of a cleaned line is the character the line has at that
/// place, or a space.
pub proof fn lemma_clean_keeps_or_blanks(line: Seq<char>, mode: Mode, k: int)
    requires
        0 <= k < line.len(),
    ensures
        scan_line(line, mode).text[k] == line[k] || scan_line(line, mode).text[k] == ' ',
{
    lemma_scan_from(line, 0, mode);
}

/// Cleaning is idempotent: a cleaned line is cleaned into itself.
pub proof fn lemma_clean_idempotent(line: Seq<char>)
    ensures
        clean(clean(line)) == clean(line),
{
    lemma_rescan(line, 0, Mode::Code);
}

/// Cleaning a text keeps the number of its lines and the length of each.
pub proof fn lemma_clean_lines_keep_geometry(lines: Seq<Seq<char>>, mode: Mode)
    ensures
        clean_lines(lines, mode).len() == lines.len(),
        forall|k: int|
            0 <= k < lines.len() ==> (#[trigger] clean_lines(lines, mode)[k]).len()
                == lines[k].len(),
    decreases lines.len(),
{
    if lines.len() > 0 {
        let first = scan_line(lines[0], mode);
        lemma_scan_from(lines[0], 0, mode);
        lemma_clean_lines_keep_geometry(lines.drop_first(), first.mode);
        assert forall|k: int| 0 <= k < lines.len() implies (#[trigger] clean_lines(
            lines,
            mode,
        )[k]).len() == lines[k].len() by {
            if k > 0 {
                assert(clean_lines(lines, mode)[k] == clean_lines(lines.drop_first(), first.mode)[k
                    - 1]);
                assert(lines[k] == lines.drop_first()[k - 1]);
            }
        }
    }
}

/// Cleaning is idempotent on whole texts: the cleaned lines of a text,
/// cleaned again in the mode that outlasts cleaning, stay as they are.
pub proof fn lemma_clean_lines_idempotent(lines: Seq<Seq<char>>, mode: Mode)
    ensures
        clean_lines(clean_lines(lines, mode), mode_cleaned(mode)) == clean_lines(lines, mode),
    decreases lines.len(),
{
    if lines.len() > 0 {
        let first = scan_line(lines[0], mode);
        let rest = clean_lines(lines.drop_first(), first.mode);
        let once = clean_lines(lines, mode);
        lemma_rescan(lines[0], 0, mode);
        lemma_clean_lines_idempotent(lines.drop_first(), first.mode);
        assert(once[0] == first.text);
        assert(once.drop_first() =~= rest);
        assert(clean_lines(once, mode_cleaned(mode)) =~= once);
    } else {
        assert(clean_lines(lines, mode) =~= Seq::<Seq<char>>::empty());
    }
}

/// A line without one of `/`, `"` and `*` is cleaned into itself, whether
/// it is entered in plain code or inside a quoted string, and leaves the
/// mode as it was.
pub proof fn lemma_clean_plain_line(line: Seq<char>, mode: Mode)
    requires
        !has_special(line),
        !(mode is Comment),
    ensures
        scan_line(line, mode).text == line,
        scan_line(line, mode).mode == mode,
{
    lemma_no_special_no_marker(line);
    lemma_scan_plain(line, 0, line.len() as int, mode);
    assert(line.subrange(0, line.len() as int) =~= line);
    assert(scan_from(line, line.len() as int, mode).text =~= Seq::<char>::empty());
    assert(line + Seq::<char>::empty() =~= line);
}

/// Inside a block comment, a line that holds no `*/` is blanked as a whole,
/// and the comment goes on after it.
pub proof fn lemma_comment_blanks_line(text: Seq<char>, i: int, depth: nat)
    requires
        0 <= i <= text.len(),
        forall|t: int| i <= t < text.len() ==> marker_at(text, t) != Some(Marker::BlockClose),
    ensures
        scan_from(text, i, Mode::Comment(depth)).text == blank(text.len() - i),
        scan_from(text, i, Mode::Comment(depth)).mode is Comment,
        mode_depth(scan_from(text, i, Mode::Comment(depth)).mode) >= depth,
    decreases text.len() - i,
{
    let mode = Mode::Comment(depth);
    if i < text.len() {
        match marker_at(text, i) {
            None => {
                lemma_comment_blanks_line(text, i + 1, depth);
                assert(scan_from(text, i, mode).text =~= blank(text.len() - i));
            },
            Some(m) => {
                let n = marker_len(m);
                lemma_comment_blanks_line(text, i + n, mode_depth(mode_after(mode, m)));
                assert(scan_from(text, i, mode).text =~= blank(text.len() - i));
            },
        }
    } else {
        assert(scan_from(text, i, mode).text =~= blank(text.len() - i));
    }
}

/// Inside a quoted string every character stays: a line that holds no `"`
/// is cleaned into itself, and the string goes on after it.
pub proof fn lemma_quote_keeps_line(text: Seq<char>, i: int)
    requires
        0 <= i <= text.len(),
        forall|t: int| i <= t < text.len() ==> text[t] != '"',
    ensures
        scan_from(text, i, Mode::Quoted).text == text.subrange(i, text.len() as int),
        scan_from(text, i, Mode::Quoted).mode == Mode::Quoted,
    decreases text.len() - i,
{
    if i < text.len() {
        match marker_at(text, i) {
            None => {
                lemma_quote_keeps_line(text, i + 1);
            },
            Some(m) => {
                lemma_quote_keeps_line(text, i + marker_len(m));
            },
        }
    }
    assert(scan_from(text, i, Mode::Quoted).text =~= text.subrange(i, text.len() as int));
}

/// A block comment that is never closed blanks every line after it: where
/// no line holds a `*/`, each cleaned line is blank and as long as the line
/// it was made from.
pub proof fn lemma_open_comment_blanks_text(lines: Seq<Seq<char>>, depth: nat)
    requires
        forall|k: int, t: int|
            0 <= k < lines.len() ==> #[trigger] marker_at(lines[k], t) != Some(Marker::BlockClose),
    ensures
        clean_lines(lines, Mode::Comment(depth)).len() == lines.len(),
        forall|k: int|
            0 <= k < lines.len() ==> #[trigger] clean_lines(lines, Mode::Comment(depth))[k]
                == blank(lines[k].len() as int),
    decreases lines.len(),
{
    if lines.len() > 0 {
        let first = scan_line(lines[0], Mode::Comment(depth));
        lemma_comment_blanks_line(lines[0], 0, depth);
        let rest = lines.drop_first();
        assert forall|k: int, t: int| 0 <= k < rest.len() implies #[trigger] marker_at(
            rest[k],
            t,
        ) != Some(Marker::BlockClose) by {
            assert(rest[k] == lines[k + 1]);
        }
        lemma_open_comment_blanks_text(rest, mode_depth(first.mode));
        assert(first.mode == Mode::Comment(mode_depth(first.mode)));
        assert forall|k: int| 0 <= k < lines.len() implies #[trigger] clean_lines(
            lines,
            Mode::Comment(depth),
        )[k] == blank(lines[k].len() as int) by {
            if k > 0 {
                assert(clean_lines(lines, Mode::Comment(depth))[k] == clean_lines(
                    rest,
                    first.mode,
                )[k - 1]);
                assert(rest[k - 1] == lines[k]);
            }
        }
    }
}

} // verus!
