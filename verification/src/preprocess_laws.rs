//! What holds of the directive extractor for every text.

use crate::preprocess::file_kind;
use crate::preprocess::first_module;
use crate::preprocess::import_path;
use crate::preprocess::imports_of;
use crate::preprocess::include_path;
use crate::preprocess::includes_of;
use crate::preprocess::is_implementing;
use crate::preprocess::lemma_run_end;
use crate::preprocess::lemma_run_start;
use crate::preprocess::module_name;
use crate::preprocess::trim;
use crate::preprocess::CharClass;
use crate::preprocess::FileKind;
use crate::text::is_whitespace;
use vstd::prelude::*;

verus! {

/// A trimmed text has no white space at either end.
pub proof fn lemma_trim_is_trimmed(text: Seq<char>)
    ensures
        trim(text).len() > 0 ==> !is_whitespace(trim(text)[0]) && !is_whitespace(
            trim(text).last(),
        ),
        trim(text).len() <= text.len(),
{
    lemma_run_end(text, 0, CharClass::Whitespace);
    lemma_run_start(text, text.len() as int, CharClass::Whitespace);
}

/// The first module declaration, read from the front: that of the first
/// line if it has one, that of the other lines if not.
pub proof fn lemma_first_module_from_front(lines: Seq<Seq<char>>)
    requires
        lines.len() > 0,
    ensures
        first_module(lines) == match module_name(lines[0]) {
            Some(name) => Some(name),
            None => first_module(lines.drop_first()),
        },
    decreases lines.len(),
{
    if lines.len() == 1 {
        assert(lines.drop_last() =~= Seq::<Seq<char>>::empty());
        assert(lines.drop_first() =~= Seq::<Seq<char>>::empty());
        assert(first_module(lines.drop_last()) is None);
    } else {
        let front = lines.drop_last();
        lemma_first_module_from_front(front);
        assert(front[0] == lines[0]);
        assert(front.drop_first() =~= lines.drop_first().drop_last());
        assert(lines.drop_first().last() == lines.last());
    }
}

/// Only the first module declaration counts: where a line declares a module
/// and no line before it does, the text's module is the one of that line.
pub proof fn lemma_first_module_wins(lines: Seq<Seq<char>>, i: int)
    requires
        0 <= i < lines.len(),
        module_name(lines[i]) is Some,
        forall|j: int| 0 <= j < i ==> module_name(lines[j]) is None,
    ensures
        first_module(lines) == module_name(lines[i]),
    decreases lines.len(),
{
    lemma_first_module_from_front(lines);
    if i > 0 {
        let rest = lines.drop_first();
        assert(rest[i - 1] == lines[i]);
        assert forall|j: int| 0 <= j < i - 1 implies module_name(rest[j]) is None by {
            assert(rest[j] == lines[j + 1]);
        }
        lemma_first_module_wins(rest, i - 1);
    }
}

/// Imports are collected in the order of the lines and none is dropped:
/// the imports of two texts in a row are those of the first, then those of
/// the second.
pub proof fn lemma_imports_in_order(a: Seq<Seq<char>>, b: Seq<Seq<char>>)
    ensures
        imports_of(a + b) == imports_of(a) + imports_of(b),
    decreases b.len(),
{
    if b.len() == 0 {
        assert(a + b =~= a);
        assert(imports_of(a) + imports_of(b) =~= imports_of(a));
    } else {
        lemma_imports_in_order(a, b.drop_last());
        assert((a + b).drop_last() =~= a + b.drop_last());
        assert((a + b).last() == b.last());
        match import_path(b.last()) {
            Some(path) => {
                assert(imports_of(a) + imports_of(b.drop_last()).push(path) =~= (imports_of(a)
                    + imports_of(b.drop_last())).push(path));
            },
            None => {},
        }
    }
}

/// Includes are collected in the order of the lines and none is dropped.
pub proof fn lemma_includes_in_order(a: Seq<Seq<char>>, b: Seq<Seq<char>>)
    ensures
        includes_of(a + b) == includes_of(a) + includes_of(b),
    decreases b.len(),
{
    if b.len() == 0 {
        assert(a + b =~= a);
        assert(includes_of(a) + includes_of(b) =~= includes_of(a));
    } else {
        lemma_includes_in_order(a, b.drop_last());
        assert((a + b).drop_last() =~= a + b.drop_last());
        assert((a + b).last() == b.last());
        match include_path(b.last()) {
            Some(path) => {
                assert(includes_of(a) + includes_of(b.drop_last()).push(path) =~= (includes_of(a)
                    + includes_of(b.drop_last())).push(path));
            },
            None => {},
        }
    }
}

/// A file with a line that starts with `implementing`, and with no module
/// declaration on that line or before it, is a part of another module.
pub proof fn lemma_implementing_before_module(lines: Seq<Seq<char>>, i: int)
    requires
        0 <= i < lines.len(),
        is_implementing(lines[i]),
        forall|j: int| 0 <= j <= i ==> module_name(lines[j]) is None,
    ensures
        file_kind(lines) == FileKind::IncludeDependencies,
    decreases lines.len(),
{
    if i > 0 && !is_implementing(lines[0]) {
        let rest = lines.drop_first();
        assert(rest[i - 1] == lines[i]);
        assert forall|j: int| 0 <= j <= i - 1 implies module_name(rest[j]) is None by {
            assert(rest[j] == lines[j + 1]);
        }
        lemma_implementing_before_module(rest, i - 1);
    }
}

/// A file with a module declaration, and with no line before it that starts
/// with `implementing`, is a module, named by its first module declaration.
pub proof fn lemma_module_before_implementing(lines: Seq<Seq<char>>, i: int)
    requires
        0 <= i < lines.len(),
        module_name(lines[i]) is Some,
        forall|j: int| 0 <= j < i ==> !is_implementing(lines[j]),
    ensures
        first_module(lines) is Some,
        file_kind(lines) == FileKind::Module(first_module(lines)->0),
    decreases lines.len(),
{
    lemma_first_module_from_front(lines);
    if i > 0 && module_name(lines[0]) is None {
        let rest = lines.drop_first();
        assert(rest[i - 1] == lines[i]);
        assert forall|j: int| 0 <= j < i - 1 implies !is_implementing(rest[j]) by {
            assert(rest[j] == lines[j + 1]);
        }
        lemma_module_before_implementing(rest, i - 1);
    }
}

/// The two readings of a text agree on its module: a file that is a module
/// has the name that its directives give.
pub proof fn lemma_file_kind_names_first_module(lines: Seq<Seq<char>>)
    ensures
        file_kind(lines) matches FileKind::Module(name) ==> first_module(lines) == Some(name),
    decreases lines.len(),
{
    if lines.len() > 0 {
        lemma_first_module_from_front(lines);
        if module_name(lines[0]) is None && !is_implementing(lines[0]) {
            lemma_file_kind_names_first_module(lines.drop_first());
        }
    }
}

} // verus!
