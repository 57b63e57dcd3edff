//! The directive extractor: module, import and include declarations, and
//! the kind of a file, read from cleaned text.

use crate::matcher::MarkerMatcher;
use crate::scanner::clean_lines;
use crate::scanner::cleaned_text;
use crate::scanner::CommentReplaceIter;
use crate::text::chars_of;
use crate::text::char_is_whitespace;
use crate::text::is_whitespace;
use crate::text::string_of;
use vstd::prelude::*;

verus! {

/// A class of characters that a run of text is made of.
#[derive(Clone, Copy, Debug, PartialEq, Eq, Structural)]
pub enum CharClass {
    /// White space.
    Whitespace,
    /// ASCII letters, digits and the underscore.
    Identifier,
    /// The characters of identifiers, and the dot that separates them.
    Dotted,
    /// Every character but the double quote.
    Unquoted,
    /// Every character but the dot.
    Undotted,
}

/// Whether an identifier can start with the character: an ASCII letter or
/// an underscore.
pub open spec fn is_ident_start(c: char) -> bool {
    ('a' <= c <= 'z') || ('A' <= c <= 'Z') || c == '_'
}

/// Whether an identifier can go on with the character: an ASCII letter or
/// digit, or an underscore.
pub open spec fn is_ident_char(c: char) -> bool {
    is_ident_start(c) || ('0' <= c <= '9')
}

/// Whether a character belongs to a class.
pub open spec fn in_class(c: char, class: CharClass) -> bool {
    match class {
        CharClass::Whitespace => is_whitespace(c),
        CharClass::Identifier => is_ident_char(c),
        CharClass::Dotted => is_ident_char(c) || c == '.',
        CharClass::Unquoted => c != '"',
        CharClass::Undotted => c != '.',
    }
}

/// Where the run of characters of a class that starts at `from` ends: the
/// first position at or after `from` whose character is not of the class,
/// or the end of the text.
pub open spec fn run_end(text: Seq<char>, from: int, class: CharClass) -> int
    decreases text.len() - from,
{
    if from < 0 || from >= text.len() || !in_class(text[from], class) {
        from
    } else {
        run_end(text, from + 1, class)
    }
}

/// Where the run of characters of a class that ends at `to` starts.
pub open spec fn run_start(text: Seq<char>, to: int, class: CharClass) -> int
    decreases to,
{
    if to <= 0 || to > text.len() || !in_class(text[to - 1], class) {
        to
    } else {
        run_start(text, to - 1, class)
    }
}

/// The text without the white space at its two ends.
pub open spec fn trim(text: Seq<char>) -> Seq<char> {
    let start = run_end(text, 0, CharClass::Whitespace);
    let end = run_start(text, text.len() as int, CharClass::Whitespace);
    if start < end {
        text.subrange(start, end)
    } else {
        Seq::empty()
    }
}

/// What follows a keyword on a line: the trimmed line must start with the
/// keyword and go on with white space; the payload is what comes after that
/// white space.
pub open spec fn directive_payload(line: Seq<char>, keyword: Seq<char>) -> Option<Seq<char>> {
    let t = trim(line);
    if keyword.is_prefix_of(t) && keyword.len() < t.len() && is_whitespace(
        t[keyword.len() as int],
    ) {
        Some(t.skip(run_end(t, keyword.len() as int, CharClass::Whitespace)))
    } else {
        None
    }
}

/// The name a line declares as the module's: the identifier that follows
/// the keyword `module`.
pub open spec fn module_name(line: Seq<char>) -> Option<Seq<char>> {
    match directive_payload(line, "module"@) {
        Some(p) => if p.len() > 0 && is_ident_start(p[0]) {
            Some(p.take(run_end(p, 0, CharClass::Identifier)))
        } else {
            None
        },
        None => None,
    }
}

/// The text of a quoted string whose opening quote is the first character
/// of `p`: what stands between that quote and the next one, or the end of
/// the line.
pub open spec fn quoted(p: Seq<char>) -> Seq<char> {
    p.subrange(1, run_end(p, 1, CharClass::Unquoted))
}

/// The segments of a dotted name: the pieces between its dots.
pub open spec fn dot_segments(name: Seq<char>) -> Seq<Seq<char>>
    decreases name.len(),
{
    let end = run_end(name, 0, CharClass::Undotted);
    if 0 <= end < name.len() {
        seq![name.take(end)] + dot_segments(name.skip(end + 1))
    } else {
        seq![name]
    }
}

/// The path a line imports: after the keyword `import`, either a quoted
/// string, which is the path's only segment and must hold no `/`, or a bare
/// dotted name, whose pieces are the path's segments.
pub open spec fn import_path(line: Seq<char>) -> Option<Seq<Seq<char>>> {
    match directive_payload(line, "import"@) {
        Some(p) => if p.len() > 0 && p[0] == '"' {
            if quoted(p).contains('/') {
                None
            } else {
                Some(seq![quoted(p)])
            }
        } else {
            Some(dot_segments(p.take(run_end(p, 0, CharClass::Dotted))))
        },
        None => None,
    }
}

/// The path a line includes: the quoted string after the keyword
/// `__include`, as the path's only segment.
pub open spec fn include_path(line: Seq<char>) -> Option<Seq<Seq<char>>> {
    match directive_payload(line, "__include"@) {
        Some(p) => if p.len() > 0 && p[0] == '"' {
            Some(seq![quoted(p)])
        } else {
            None
        },
        None => None,
    }
}

/// Whether a line marks its file as part of another module: trimmed, it
/// starts with the keyword `implementing`.
pub open spec fn is_implementing(line: Seq<char>) -> bool {
    "implementing"@.is_prefix_of(trim(line))
}

/// Decides [`is_ident_start`].
pub fn char_is_ident_start(c: char) -> (b: bool)
    ensures
        b == is_ident_start(c),
{
    let u: u32 = c as u32;
    (0x61 <= u && u <= 0x7A) || (0x41 <= u && u <= 0x5A) || u == 0x5F
}

/// Decides [`in_class`].
pub fn char_in_class(c: char, class: CharClass) -> (b: bool)
    ensures
        b == in_class(c, class),
{
    let u: u32 = c as u32;
    match class {
        CharClass::Whitespace => char_is_whitespace(c),
        CharClass::Identifier => char_is_ident_start(c) || (0x30 <= u && u <= 0x39),
        CharClass::Dotted => char_is_ident_start(c) || (0x30 <= u && u <= 0x39) || c == '.',
        CharClass::Unquoted => c != '"',
        CharClass::Undotted => c != '.',
    }
}

/// `run_end` lies between `from` and the end of the text.
pub proof fn lemma_run_end(text: Seq<char>, from: int, class: CharClass)
    requires
        0 <= from <= text.len(),
    ensures
        from <= run_end(text, from, class) <= text.len(),
        run_end(text, from, class) < text.len() ==> !in_class(
            text[run_end(text, from, class)],
            class,
        ),
        forall|k: int| from <= k < run_end(text, from, class) ==> in_class(text[k], class),
    decreases text.len() - from,
{
    if from < text.len() && in_class(text[from], class) {
        lemma_run_end(text, from + 1, class);
    }
}

/// `run_start` lies between the start of the text and `to`.
pub proof fn lemma_run_start(text: Seq<char>, to: int, class: CharClass)
    requires
        0 <= to <= text.len(),
    ensures
        0 <= run_start(text, to, class) <= to,
        run_start(text, to, class) > 0 ==> !in_class(
            text[run_start(text, to, class) - 1],
            class,
        ),
    decreases to,
{
    if to > 0 && in_class(text[to - 1], class) {
        lemma_run_start(text, to - 1, class);
    }
}

/// Finds the end of the run of characters of a class that starts at `from`.
pub fn skip_run(text: &[char], from: usize, class: CharClass) -> (end: usize)
    requires
        from <= text@.len(),
    ensures
        end as int == run_end(text@, from as int, class),
        from <= end <= text@.len(),
{
    let mut i: usize = from;
    while i < text.len() && char_in_class(text[i], class)
        invariant
            from <= i <= text@.len(),
            run_end(text@, from as int, class) == run_end(text@, i as int, class),
        decreases text@.len() - i,
    {
        i = i + 1;
    }
    i
}

/// Finds the start of the run of characters of a class that ends at `to`.
pub fn skip_run_back(text: &[char], to: usize, class: CharClass) -> (start: usize)
    requires
        to <= text@.len(),
    ensures
        start as int == run_start(text@, to as int, class),
        start <= to,
{
    let mut i: usize = to;
    while i > 0 && char_in_class(text[i - 1], class)
        invariant
            i <= to <= text@.len(),
            run_start(text@, to as int, class) == run_start(text@, i as int, class),
        decreases i,
    {
        i = i - 1;
    }
    i
}

/// The line without the white space at its two ends.
pub fn trim_line<'a>(line: &'a [char]) -> (t: &'a [char])
    ensures
        t@ == trim(line@),
{
    let start = skip_run(line, 0, CharClass::Whitespace);
    let end = skip_run_back(line, line.len(), CharClass::Whitespace);
    if start < end {
        vstd::slice::slice_subrange(line, start, end)
    } else {
        vstd::slice::slice_subrange(line, 0, 0)
    }
}

/// Whether the text starts with the word.
pub fn starts_with(text: &[char], word: &[char]) -> (b: bool)
    ensures
        b == word@.is_prefix_of(text@),
{
    if word.len() > text.len() {
        return false;
    }
    let mut i: usize = 0;
    while i < word.len()
        invariant
            i <= word@.len() <= text@.len(),
            forall|k: int| 0 <= k < i ==> word@[k] == text@[k],
        decreases word@.len() - i,
    {
        if word[i] != text[i] {
            return false;
        }
        i = i + 1;
    }
    assert(word@ =~= text@.subrange(0, word@.len() as int));
    true
}

/// What follows a keyword on a line, if the line starts with it.
pub fn payload_of<'a>(line: &'a [char], keyword: &[char]) -> (r: Option<&'a [char]>)
    ensures
        match r {
            Some(p) => directive_payload(line@, keyword@) == Some(p@),
            None => directive_payload(line@, keyword@) is None,
        },
{
    let t = trim_line(line);
    let n = keyword.len();
    if starts_with(t, keyword) && n < t.len() && char_is_whitespace(t[n]) {
        let start = skip_run(t, n, CharClass::Whitespace);
        Some(vstd::slice::slice_subrange(t, start, t.len()))
    } else {
        None
    }
}

/// A path to a module or a file: its segments, in order.
#[derive(Debug, PartialEq, Eq, Hash)]
pub struct Path {
    pub segments: Vec<String>,
}

impl View for Path {
    type V = Seq<Seq<char>>;

    open spec fn view(&self) -> Seq<Seq<char>> {
        self.segments.deep_view()
    }
}

/// What the directives of a text say, as contracts see it.
pub struct Directives {
    pub module_name: Option<Seq<char>>,
    pub imports: Seq<Seq<Seq<char>>>,
    pub includes: Seq<Seq<Seq<char>>>,
}

/// What the directives of a shader source say: the module it declares, and
/// the paths it imports and includes, each in the order of the source.
#[derive(Debug, PartialEq, Eq)]
pub struct PreprocessedShader {
    pub module_name: Option<String>,
    pub imports: Vec<Path>,
    pub includes: Vec<Path>,
}

/// The paths of a list, as contracts see them.
pub open spec fn paths_view(paths: Seq<Path>) -> Seq<Seq<Seq<char>>> {
    Seq::new(paths.len(), |i: int| paths[i]@)
}

/// An optional string, as contracts see it.
pub open spec fn name_view(name: Option<String>) -> Option<Seq<char>> {
    match name {
        Some(n) => Some(n@),
        None => None,
    }
}

impl View for PreprocessedShader {
    type V = Directives;

    open spec fn view(&self) -> Directives {
        Directives {
            module_name: name_view(self.module_name),
            imports: paths_view(self.imports@),
            includes: paths_view(self.includes@),
        }
    }
}

/// The kind of a file, as contracts see it.
pub enum FileKind {
    Code,
    Module(Seq<char>),
    IncludeDependencies,
}

/// The kind of a shader source file.
#[derive(Debug, PartialEq, Eq, Hash)]
pub enum FileType {
    /// Plain code: no line says otherwise.
    Code,
    /// A module of its own, with its name.
    Module(String),
    /// A part of another module, which that module pulls in.
    IncludeDependencies,
}

impl View for FileType {
    type V = FileKind;

    open spec fn view(&self) -> FileKind {
        match self {
            FileType::Code => FileKind::Code,
            FileType::Module(name) => FileKind::Module(name@),
            FileType::IncludeDependencies => FileKind::IncludeDependencies,
        }
    }
}

/// The name of the first line that declares a module.
pub open spec fn first_module(lines: Seq<Seq<char>>) -> Option<Seq<char>>
    decreases lines.len(),
{
    if lines.len() == 0 {
        None
    } else {
        match first_module(lines.drop_last()) {
            Some(name) => Some(name),
            None => module_name(lines.last()),
        }
    }
}

/// The paths that the lines import, in the order of the lines.
pub open spec fn imports_of(lines: Seq<Seq<char>>) -> Seq<Seq<Seq<char>>>
    decreases lines.len(),
{
    if lines.len() == 0 {
        Seq::empty()
    } else {
        match import_path(lines.last()) {
            Some(path) => imports_of(lines.drop_last()).push(path),
            None => imports_of(lines.drop_last()),
        }
    }
}

/// The paths that the lines include, in the order of the lines.
pub open spec fn includes_of(lines: Seq<Seq<char>>) -> Seq<Seq<Seq<char>>>
    decreases lines.len(),
{
    if lines.len() == 0 {
        Seq::empty()
    } else {
        match include_path(lines.last()) {
            Some(path) => includes_of(lines.drop_last()).push(path),
            None => includes_of(lines.drop_last()),
        }
    }
}

/// What the directives of cleaned lines say.
pub open spec fn directives_of(lines: Seq<Seq<char>>) -> Directives {
    Directives {
        module_name: first_module(lines),
        imports: imports_of(lines),
        includes: includes_of(lines),
    }
}

/// The kind of a file with the given cleaned lines: the first line that
/// declares a module or starts with `implementing` decides, and a line that
/// does both declares a module.
pub open spec fn file_kind(lines: Seq<Seq<char>>) -> FileKind
    decreases lines.len(),
{
    if lines.len() == 0 {
        FileKind::Code
    } else {
        match module_name(lines[0]) {
            Some(name) => FileKind::Module(name),
            None => if is_implementing(lines[0]) {
                FileKind::IncludeDependencies
            } else {
                file_kind(lines.drop_first())
            },
        }
    }
}

/// The name that a cleaned line declares as the module's, if it declares
/// one.
pub fn parse_module(line: &[char]) -> (r: Option<String>)
    ensures
        name_view(r) == module_name(line@),
{
    let keyword: [char; 6] = ['m', 'o', 'd', 'u', 'l', 'e'];
    proof {
        reveal_strlit("module");
        assert(keyword@ =~= "module"@);
    }
    match payload_of(line, keyword.as_slice()) {
        Some(p) => {
            if p.len() > 0 && char_is_ident_start(p[0]) {
                let end = skip_run(p, 0, CharClass::Identifier);
                Some(string_of(vstd::slice::slice_subrange(p, 0, end)))
            } else {
                None
            }
        },
        None => None,
    }
}

/// Whether the slash is among the characters.
fn holds_slash(text: &[char]) -> (b: bool)
    ensures
        b == text@.contains('/'),
{
    let mut i: usize = 0;
    while i < text.len()
        invariant
            i <= text@.len(),
            forall|k: int| 0 <= k < i ==> text@[k] != '/',
        decreases text@.len() - i,
    {
        if text[i] == '/' {
            return true;
        }
        i = i + 1;
    }
    false
}

/// The text of the quoted string that `p` starts with.
fn quoted_text<'a>(p: &'a [char]) -> (q: &'a [char])
    requires
        p@.len() > 0,
    ensures
        q@ == quoted(p@),
{
    let end = skip_run(p, 1, CharClass::Unquoted);
    vstd::slice::slice_subrange(p, 1, end)
}

/// A path with one segment.
fn single_segment(text: &[char]) -> (path: Path)
    ensures
        path@ == seq![text@],
{
    let mut segments: Vec<String> = Vec::new();
    segments.push(string_of(text));
    let path = Path { segments };
    assert(path@ =~= seq![text@]);
    path
}

/// The path whose segments are the pieces of a dotted name.
fn dotted_path(name: &[char]) -> (path: Path)
    ensures
        path@ == dot_segments(name@),
{
    let mut segments: Vec<String> = Vec::new();
    let mut from: usize = 0;
    proof {
        assert(name@.skip(0) =~= name@);
        assert(segments.deep_view() + dot_segments(name@) =~= dot_segments(name@));
    }
    loop
        invariant_except_break
            from <= name@.len(),
            dot_segments(name@) == segments.deep_view() + dot_segments(name@.skip(from as int)),
        ensures
            segments.deep_view() == dot_segments(name@),
        decreases name@.len() - from,
    {
        let ghost rest = name@.skip(from as int);
        let ghost before = segments.deep_view();
        let end = skip_run(name, from, CharClass::Undotted);
        proof {
            lemma_run_end_skip(name@, from as int, from as int, CharClass::Undotted);
        }
        let piece = vstd::slice::slice_subrange(name, from, end);
        segments.push(string_of(piece));
        assert(piece@ =~= rest.take(end - from));
        assert(segments.deep_view() =~= before.push(piece@));
        if end < name.len() {
            assert(rest.skip(end - from + 1) =~= name@.skip(end + 1));
            assert(before + (seq![piece@] + dot_segments(name@.skip(end + 1))) =~= before.push(
                piece@,
            ) + dot_segments(name@.skip(end + 1)));
            from = end + 1;
        } else {
            assert(piece@ =~= rest);
            assert(before + seq![rest] =~= before.push(piece@));
            break ;
        }
    }
    Path { segments }
}

/// A run in the rest of a text ends where it ends in the whole text.
pub proof fn lemma_run_end_skip(text: Seq<char>, base: int, from: int, class: CharClass)
    requires
        0 <= base <= from <= text.len(),
    ensures
        run_end(text.skip(base), from - base, class) == run_end(text, from, class) - base,
    decreases text.len() - from,
{
    let rest = text.skip(base);
    if from < text.len() {
        assert(rest[from - base] == text[from]);
        if in_class(text[from], class) {
            lemma_run_end_skip(text, base, from + 1, class);
        }
    }
}

/// The path that a cleaned line imports, if it imports one.
pub fn parse_import(line: &[char]) -> (r: Option<Path>)
    ensures
        match r {
            Some(path) => import_path(line@) == Some(path@),
            None => import_path(line@) is None,
        },
{
    let keyword: [char; 6] = ['i', 'm', 'p', 'o', 'r', 't'];
    proof {
        reveal_strlit("import");
        assert(keyword@ =~= "import"@);
    }
    match payload_of(line, keyword.as_slice()) {
        Some(p) => {
            if p.len() > 0 && p[0] == '"' {
                let q = quoted_text(p);
                if holds_slash(q) {
                    None
                } else {
                    Some(single_segment(q))
                }
            } else {
                let end = skip_run(p, 0, CharClass::Dotted);
                Some(dotted_path(vstd::slice::slice_subrange(p, 0, end)))
            }
        },
        None => None,
    }
}

/// The path that a cleaned line includes, if it includes one.
pub fn parse_include(line: &[char]) -> (r: Option<Path>)
    ensures
        match r {
            Some(path) => include_path(line@) == Some(path@),
            None => include_path(line@) is None,
        },
{
    let keyword: [char; 9] = ['_', '_', 'i', 'n', 'c', 'l', 'u', 'd', 'e'];
    proof {
        reveal_strlit("__include");
        assert(keyword@ =~= "__include"@);
    }
    match payload_of(line, keyword.as_slice()) {
        Some(p) => {
            if p.len() > 0 && p[0] == '"' {
                Some(single_segment(quoted_text(p)))
            } else {
                None
            }
        },
        None => None,
    }
}

/// Whether a cleaned line starts, trimmed, with the keyword `implementing`.
pub fn line_is_implementing(line: &[char]) -> (b: bool)
    ensures
        b == is_implementing(line@),
{
    let keyword: [char; 12] = ['i', 'm', 'p', 'l', 'e', 'm', 'e', 'n', 't', 'i', 'n', 'g'];
    proof {
        reveal_strlit("implementing");
        assert(keyword@ =~= "implementing"@);
    }
    starts_with(trim_line(line), keyword.as_slice())
}

/// Reads the directives of a shader source.
///
/// The text is cleaned of comments first, so a directive inside a comment
/// counts for nothing. The first line that declares a module names it; every
/// line that imports or includes a path adds it, in the order of the lines
/// and as often as it occurs.
pub fn preprocess(content: &str) -> (shader: PreprocessedShader)
    ensures
        shader@ == directives_of(cleaned_text(content@)),
{
    let matcher = MarkerMatcher::new();
    preprocess_with(&matcher, content)
}

/// Reads the directives of a shader source as [`preprocess`] does, with a
/// matcher built elsewhere: one matcher serves every source of a program.
pub fn preprocess_with(matcher: &MarkerMatcher, content: &str) -> (shader: PreprocessedShader)
    ensures
        shader@ == directives_of(cleaned_text(content@)),
{
    let chars = chars_of(content);
    let mut iter = CommentReplaceIter::with_matcher(chars.as_slice(), matcher);
    let mut module_name: Option<String> = None;
    let mut imports: Vec<Path> = Vec::new();
    let mut includes: Vec<Path> = Vec::new();
    let ghost all = cleaned_text(content@);
    let ghost mut done: Seq<Seq<char>> = Seq::empty();
    proof {
        assert(done + all =~= all);
        assert(paths_view(imports@) =~= imports_of(done));
        assert(paths_view(includes@) =~= includes_of(done));
    }
    loop
        invariant_except_break
            all == done + clean_lines(iter.remaining(), iter.mode()),
            name_view(module_name) == first_module(done),
            paths_view(imports@) == imports_of(done),
            paths_view(includes@) == includes_of(done),
        ensures
            name_view(module_name) == first_module(all),
            paths_view(imports@) == imports_of(all),
            paths_view(includes@) == includes_of(all),
        decreases iter.remaining().len(),
    {
        let ghost rest = clean_lines(iter.remaining(), iter.mode());
        match iter.next() {
            None => {
                proof {
                    assert(rest =~= Seq::<Seq<char>>::empty());
                    assert(done + rest =~= done);
                }
                break ;
            },
            Some(cleaned) => {
                let line = cleaned.as_slice();
                let ghost before = done;
                proof {
                    done = done.push(line@);
                    assert(done.drop_last() =~= before);
                    assert(all =~= done + clean_lines(iter.remaining(), iter.mode()));
                }
                if module_name.is_none() {
                    module_name = parse_module(line);
                }
                let ghost imports_before = imports@;
                match parse_import(line) {
                    Some(path) => {
                        imports.push(path);
                        assert(paths_view(imports@) =~= paths_view(imports_before).push(path@));
                    },
                    None => {},
                }
                let ghost includes_before = includes@;
                match parse_include(line) {
                    Some(path) => {
                        includes.push(path);
                        assert(paths_view(includes@) =~= paths_view(includes_before).push(path@));
                    },
                    None => {},
                }
            },
        }
    }
    PreprocessedShader { module_name, imports, includes }
}

/// Tells the kind of a shader source file.
///
/// The text is cleaned of comments first. The first line that declares a
/// module or starts with `implementing` decides: the file is a module with
/// the declared name, or a part of another module. With no such line the
/// file is plain code.
pub fn get_file_type(content: &str) -> (file_type: FileType)
    ensures
        file_type@ == file_kind(cleaned_text(content@)),
{
    let matcher = MarkerMatcher::new();
    get_file_type_with(&matcher, content)
}

/// Tells the kind of a shader source file as [`get_file_type`] does, with a
/// matcher built elsewhere.
pub fn get_file_type_with(matcher: &MarkerMatcher, content: &str) -> (file_type: FileType)
    ensures
        file_type@ == file_kind(cleaned_text(content@)),
{
    let chars = chars_of(content);
    let mut iter = CommentReplaceIter::with_matcher(chars.as_slice(), matcher);
    loop
        invariant
            file_kind(cleaned_text(content@)) == file_kind(
                clean_lines(iter.remaining(), iter.mode()),
            ),
        decreases iter.remaining().len(),
    {
        let ghost rest = clean_lines(iter.remaining(), iter.mode());
        match iter.next() {
            None => {
                return FileType::Code;
            },
            Some(cleaned) => {
                let line = cleaned.as_slice();
                proof {
                    assert(rest[0] == line@);
                    assert(rest.drop_first() =~= clean_lines(iter.remaining(), iter.mode()));
                }
                match parse_module(line) {
                    Some(name) => {
                        return FileType::Module(name);
                    },
                    None => {},
                }
                if line_is_implementing(line) {
                    return FileType::IncludeDependencies;
                }
            },
        }
    }
}

} // verus!
