use vstd::prelude::*;
use crate::text::{chars_of, span_starts_with};

verus! {

/// The two schema formats this library counts, told apart by file extension.
#[derive(Clone, Copy, Debug, PartialEq, Eq, Structural)]
pub enum FileKind {
    Xml,
    Yang,
}

/// The display name of a kind: `XML` or `YANG`.
pub open spec fn kind_name(k: FileKind) -> Seq<char> {
    match k {
        FileKind::Xml => seq!['X', 'M', 'L'],
        FileKind::Yang => seq!['Y', 'A', 'N', 'G'],
    }
}

impl FileKind {
    pub fn name(&self) -> (r: &'static str)
        ensures
            r@ == kind_name(*self),
    {
        match self {
            FileKind::Xml => {
                let r = "XML";
                proof {
                    reveal_strlit("XML");
                }
                assert(r@ =~= kind_name(*self));
                r
            },
            FileKind::Yang => {
                let r = "YANG";
                proof {
                    reveal_strlit("YANG");
                }
                assert(r@ =~= kind_name(*self));
                r
            },
        }
    }
}

/// Which kinds of file a run counts.
#[derive(Clone, Copy, Debug, PartialEq, Eq, Structural)]
pub enum TypeFilter {
    Xml,
    Yang,
    All,
}

/// The filter that a command-line value names: `xml`, `yang` or `all`.
pub open spec fn filter_named(s: Seq<char>) -> Option<TypeFilter> {
    if s == seq!['x', 'm', 'l'] {
        Some(TypeFilter::Xml)
    } else if s == seq!['y', 'a', 'n', 'g'] {
        Some(TypeFilter::Yang)
    } else if s == seq!['a', 'l', 'l'] {
        Some(TypeFilter::All)
    } else {
        None
    }
}

/// Whether `text` is exactly `w`.
fn chars_equal(text: &[char], w: &[char]) -> (r: bool)
    ensures
        r == (text@ == w@),
{
    if text.len() != w.len() {
        return false;
    }
    let r = span_starts_with(text, 0, text.len(), w);
    assert(text@.subrange(0, text@.len() as int) =~= text@);
    assert(text@.take(w@.len() as int) =~= text@);
    r
}

impl TypeFilter {
    /// Whether a file of kind `k` passes this filter.
    pub open spec fn spec_accepts(self, k: FileKind) -> bool {
        match self {
            TypeFilter::Xml => k == FileKind::Xml,
            TypeFilter::Yang => k == FileKind::Yang,
            TypeFilter::All => true,
        }
    }

    pub fn accepts(&self, k: FileKind) -> (r: bool)
        ensures
            r == self.spec_accepts(k),
    {
        match self {
            TypeFilter::Xml => k == FileKind::Xml,
            TypeFilter::Yang => k == FileKind::Yang,
            TypeFilter::All => true,
        }
    }

    /// Reads a filter from its name; names are matched exactly.
    pub fn from_name(name: &str) -> (r: Option<TypeFilter>)
        ensures
            r == filter_named(name@),
    {
        let s = chars_of(name);
        let xml = ['x', 'm', 'l'];
        let yang = ['y', 'a', 'n', 'g'];
        let all = ['a', 'l', 'l'];
        assert(xml@ =~= seq!['x', 'm', 'l']);
        assert(yang@ =~= seq!['y', 'a', 'n', 'g']);
        assert(all@ =~= seq!['a', 'l', 'l']);
        if chars_equal(s.as_slice(), &xml) {
            Some(TypeFilter::Xml)
        } else if chars_equal(s.as_slice(), &yang) {
            Some(TypeFilter::Yang)
        } else if chars_equal(s.as_slice(), &all) {
            Some(TypeFilter::All)
        } else {
            None
        }
    }
}

/// A character's code with ASCII capitals mapped to small letters.
pub open spec fn folded(c: char) -> u32 {
    if 65 <= c as u32 <= 90 {
        (c as u32 + 32) as u32
    } else {
        c as u32
    }
}

/// Whether `s` spells the lower-case word `w` in any mix of ASCII case.
pub open spec fn spells(s: Seq<char>, w: Seq<char>) -> bool {
    s.len() == w.len() && forall|i: int| 0 <= i < s.len() ==> folded(s[i]) == w[i] as u32
}

/// The kind that an extension (without its dot) stands for, ignoring case.
/// Only ASCII letters can fold onto `xml` or `yang`, so this agrees with
/// comparing the extension's full lower-case form.
pub open spec fn kind_of_ext(e: Seq<char>) -> Option<FileKind> {
    if spells(e, seq!['x', 'm', 'l']) {
        Some(FileKind::Xml)
    } else if spells(e, seq!['y', 'a', 'n', 'g']) {
        Some(FileKind::Yang)
    } else {
        None
    }
}

/// The position of the last `.` in `s`, or -1 where there is none.
pub open spec fn last_dot(s: Seq<char>) -> int
    decreases s.len(),
{
    if s.len() == 0 {
        -1
    } else if s.last() == '.' {
        s.len() - 1
    } else {
        last_dot(s.drop_last())
    }
}

/// The extension of a file name, as `Path::extension` finds it: the text
/// after the last dot, unless that dot opens the name or the name is `..`.
pub open spec fn extension(name: Seq<char>) -> Option<Seq<char>> {
    let d = last_dot(name);
    if d <= 0 || name == seq!['.', '.'] {
        None
    } else {
        Some(name.subrange(d + 1, name.len() as int))
    }
}

/// The kind of a file by its name, or `None` where the extension is neither.
pub open spec fn kind_of_name(name: Seq<char>) -> Option<FileKind> {
    match extension(name) {
        Some(e) => kind_of_ext(e),
        None => None,
    }
}

/// The kind a file name is counted as under `filter`, if it is counted at all.
pub open spec fn selected_kind(name: Seq<char>, filter: TypeFilter) -> Option<FileKind> {
    match kind_of_name(name) {
        Some(k) => if filter.spec_accepts(k) {
            Some(k)
        } else {
            None
        },
        None => None,
    }
}

fn fold(c: char) -> (r: u32)
    ensures
        r == folded(c),
{
    let u = c as u32;
    if 65 <= u && u <= 90 {
        u + 32
    } else {
        u
    }
}

/// Whether `text[start..end]` spells `w` in any case.
fn span_spells(text: &[char], start: usize, end: usize, w: &[char]) -> (r: bool)
    requires
        start <= end <= text@.len(),
    ensures
        r == spells(text@.subrange(start as int, end as int), w@),
{
    let ghost s = text@.subrange(start as int, end as int);
    if end - start != w.len() {
        return false;
    }
    let mut k: usize = 0;
    while k < w.len()
        invariant
            s == text@.subrange(start as int, end as int),
            end - start == w@.len(),
            end <= text@.len(),
            k <= w@.len(),
            forall|j: int| 0 <= j < k ==> folded(s[j]) == w@[j] as u32,
        decreases w.len() - k,
    {
        if fold(text[start + k]) != w[k] as u32 {
            return false;
        }
        k = k + 1;
    }
    true
}

/// The kind that `text[start..end]`, an extension, stands for.
fn span_kind(text: &[char], start: usize, end: usize) -> (r: Option<FileKind>)
    requires
        start <= end <= text@.len(),
    ensures
        r == kind_of_ext(text@.subrange(start as int, end as int)),
{
    let xml = ['x', 'm', 'l'];
    let yang = ['y', 'a', 'n', 'g'];
    assert(xml@ =~= seq!['x', 'm', 'l']);
    assert(yang@ =~= seq!['y', 'a', 'n', 'g']);
    if span_spells(text, start, end, &xml) {
        Some(FileKind::Xml)
    } else if span_spells(text, start, end, &yang) {
        Some(FileKind::Yang)
    } else {
        None
    }
}

/// The kind that an extension (given without its dot) stands for; case is ignored.
pub fn kind_of_extension(ext: &str) -> (r: Option<FileKind>)
    ensures
        r == kind_of_ext(ext@),
{
    let s = chars_of(ext);
    assert(s@.subrange(0, s@.len() as int) =~= s@);
    span_kind(s.as_slice(), 0, s.len())
}

fn last_dot_of(text: &[char]) -> (r: Option<usize>)
    ensures
        match r {
            Some(d) => d == last_dot(text@) && d < text@.len(),
            None => last_dot(text@) == -1,
        },
{
    let mut i = text.len();
    assert(text@.take(i as int) =~= text@);
    while i > 0 && text[i - 1] != '.'
        invariant
            i <= text@.len(),
            last_dot(text@) == last_dot(text@.take(i as int)),
        decreases i,
    {
        assert(text@.take(i as int).drop_last() =~= text@.take(i - 1));
        i = i - 1;
    }
    if i == 0 {
        None
    } else {
        Some(i - 1)
    }
}

/// The kind of a file by its name (its last path component), ignoring case.
pub fn kind_of_file_name(name: &str) -> (r: Option<FileKind>)
    ensures
        r == kind_of_name(name@),
{
    let s = chars_of(name);
    let n = s.len();
    let dots = ['.', '.'];
    assert(dots@ =~= seq!['.', '.']);
    match last_dot_of(s.as_slice()) {
        None => None,
        Some(d) => {
            if d == 0 || chars_equal(s.as_slice(), &dots) {
                None
            } else {
                span_kind(s.as_slice(), d + 1, n)
            }
        },
    }
}

/// Decides from a file's name whether a run with `filter` counts the file,
/// and as which kind.
pub fn select_kind(name: &str, filter: TypeFilter) -> (r: Option<FileKind>)
    ensures
        r == selected_kind(name@, filter),
        r matches Some(k) ==> filter.spec_accepts(k),
{
    match kind_of_file_name(name) {
        Some(k) => if filter.accepts(k) {
            Some(k)
        } else {
            None
        },
        None => None,
    }
}

/// Extensions are matched without regard to ASCII case: two extensions that
/// differ only in the case of their letters stand for the same kind.
pub proof fn lemma_extension_case_insensitive(a: Seq<char>, b: Seq<char>)
    requires
        a.len() == b.len(),
        forall|i: int| 0 <= i < a.len() ==> folded(a[i]) == folded(b[i]),
    ensures
        kind_of_ext(a) == kind_of_ext(b),
{
}

/// A file is only ever counted as a kind that the filter admits: the `xml`
/// filter never yields YANG, the `yang` filter never yields XML, and `all`
/// counts every file whose extension names a kind.
pub proof fn lemma_filter_admits_only_its_kind(name: Seq<char>)
    ensures
        selected_kind(name, TypeFilter::Xml) != Some(FileKind::Yang),
        selected_kind(name, TypeFilter::Yang) != Some(FileKind::Xml),
        selected_kind(name, TypeFilter::All) == kind_of_name(name),
{
}

} // verus!
