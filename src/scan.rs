use vstd::prelude::*;
use crate::kind::FileKind;
use crate::text::{chars_of, contains, span_contains, span_starts_with, starts_with, trim, trim_span};

verus! {

/// How a single line is counted.
#[derive(Clone, Copy, Debug, PartialEq, Eq, Structural)]
pub enum LineClass {
    /// Nothing but white space.
    Blank,
    /// Carries a comment marker of the file's format.
    Comment,
    /// Anything else.
    Code,
}

/// Whether trimmed, non-empty text opens or holds a comment in a file of kind `k`:
/// `<!--` anywhere for XML; `//` or `/*` at the start for YANG.
pub open spec fn is_comment_text(k: FileKind, t: Seq<char>) -> bool {
    match k {
        FileKind::Xml => contains(t, seq!['<', '!', '-', '-']),
        FileKind::Yang => starts_with(t, seq!['/', '/']) || starts_with(t, seq!['/', '*']),
    }
}

/// The class of one line of a file of kind `k`, judged on its trimmed text.
pub open spec fn line_class(k: FileKind, line: Seq<char>) -> LineClass {
    let t = trim(line);
    if t.len() == 0 {
        LineClass::Blank
    } else if is_comment_text(k, t) {
        LineClass::Comment
    } else {
        LineClass::Code
    }
}

/// The pieces of `s` between line feeds: one more than there are line feeds.
pub open spec fn pieces(s: Seq<char>) -> Seq<Seq<char>>
    decreases s.len(),
{
    if s.len() == 0 {
        seq![Seq::<char>::empty()]
    } else {
        let p = pieces(s.drop_last());
        if s.last() == '\n' {
            p.push(Seq::<char>::empty())
        } else {
            p.update(p.len() - 1, p.last().push(s.last()))
        }
    }
}

/// The lines of a text, as `str::lines` yields them up to a carriage return
/// before each line feed, which trimming removes in any case: the pieces
/// between line feeds, where a final line feed ends the last line rather than
/// opening an empty one. Empty text has no lines.
pub open spec fn lines(s: Seq<char>) -> Seq<Seq<char>> {
    if s.len() == 0 {
        Seq::empty()
    } else if s.last() == '\n' {
        pieces(s.drop_last())
    } else {
        pieces(s)
    }
}

/// How many of `ls` fall in class `c`, for a file of kind `k`.
pub open spec fn count_class(k: FileKind, ls: Seq<Seq<char>>, c: LineClass) -> nat
    decreases ls.len(),
{
    if ls.len() == 0 {
        0
    } else {
        count_class(k, ls.drop_last(), c) + if line_class(k, ls.last()) == c {
            1nat
        } else {
            0nat
        }
    }
}

/// The figures of one scanned file.
#[derive(Clone, Debug)]
pub struct FileStats {
    /// The path as it was met.
    pub file_path: String,
    /// The number of lines.
    pub lines: usize,
    pub file_type: FileKind,
    /// The number of comment lines.
    pub comments: usize,
    /// The number of blank lines.
    pub blanks: usize,
    /// The number of characters (Unicode scalar values) of the whole content,
    /// line terminators included.
    pub characters: usize,
}

impl FileStats {
    /// No line is counted both as blank and as a comment.
    pub open spec fn wf(&self) -> bool {
        self.comments + self.blanks <= self.lines
    }

    /// Whether these are the figures of `content`, a file of kind `k` at `path`.
    pub open spec fn describes(&self, path: Seq<char>, k: FileKind, content: Seq<char>) -> bool {
        &&& self.file_path@ == path
        &&& self.file_type == k
        &&& self.lines == lines(content).len()
        &&& self.characters == content.len()
        &&& self.blanks == count_class(k, lines(content), LineClass::Blank)
        &&& self.comments == count_class(k, lines(content), LineClass::Comment)
    }
}

/// Every line falls in one class, so blank and comment lines together are at
/// most all the lines.
pub proof fn lemma_classes_bounded(k: FileKind, ls: Seq<Seq<char>>)
    ensures
        count_class(k, ls, LineClass::Blank) + count_class(k, ls, LineClass::Comment) <= ls.len(),
    decreases ls.len(),
{
    if ls.len() > 0 {
        lemma_classes_bounded(k, ls.drop_last());
    }
}

/// The class of the line `text[start..end]` of a file of kind `k`.
fn span_class(k: FileKind, text: &[char], start: usize, end: usize) -> (r: LineClass)
    requires
        start <= end <= text@.len(),
    ensures
        r == line_class(k, text@.subrange(start as int, end as int)),
{
    let (lo, hi) = trim_span(text, start, end);
    if lo == hi {
        return LineClass::Blank;
    }
    let comment = match k {
        FileKind::Xml => {
            let open = ['<', '!', '-', '-'];
            assert(open@ =~= seq!['<', '!', '-', '-']);
            span_contains(text, lo, hi, &open)
        },
        FileKind::Yang => {
            let line = ['/', '/'];
            let block = ['/', '*'];
            assert(line@ =~= seq!['/', '/']);
            assert(block@ =~= seq!['/', '*']);
            span_starts_with(text, lo, hi, &line) || span_starts_with(text, lo, hi, &block)
        },
    };
    if comment {
        LineClass::Comment
    } else {
        LineClass::Code
    }
}

/// The class of one line (without its terminator) of a file of kind `k`.
pub fn classify_line(k: FileKind, line: &str) -> (r: LineClass)
    ensures
        r == line_class(k, line@),
{
    let s = chars_of(line);
    assert(s@.subrange(0, s@.len() as int) =~= s@);
    span_class(k, s.as_slice(), 0, s.len())
}

/// Counts one line of class `c` into the running figures.
fn tally(c: LineClass, blanks: &mut usize, comments: &mut usize)
    requires
        *old(blanks) + *old(comments) < usize::MAX,
    ensures
        *final(blanks) == *old(blanks) + if c == LineClass::Blank {
            1usize
        } else {
            0usize
        },
        *final(comments) == *old(comments) + if c == LineClass::Comment {
            1usize
        } else {
            0usize
        },
{
    match c {
        LineClass::Blank => *blanks = *blanks + 1,
        LineClass::Comment => *comments = *comments + 1,
        LineClass::Code => {},
    }
}

/// Scans the text of a file of kind `k` found at `path`: counts its lines,
/// its characters, and its blank and comment lines.
pub fn analyze_content(path: String, k: FileKind, content: &str) -> (r: FileStats)
    ensures
        r.describes(path@, k, content@),
        r.wf(),
{
    let text = chars_of(content);
    let n = text.len();
    let mut start: usize = 0;
    let mut lines: usize = 0;
    let mut comments: usize = 0;
    let mut blanks: usize = 0;
    let ghost mut done: Seq<Seq<char>> = Seq::empty();
    let mut i: usize = 0;
    assert(text@.take(0) =~= Seq::<char>::empty());
    assert(text@.subrange(0, 0) =~= Seq::<char>::empty());
    while i < n
        invariant
            n == text@.len(),
            text@ == content@,
            start <= i <= n,
            pieces(text@.take(i as int)) == done.push(text@.subrange(start as int, i as int)),
            start == i <==> (i == 0 || text@[i - 1] == '\n'),
            lines == done.len(),
            lines <= start,
            blanks == count_class(k, done, LineClass::Blank),
            comments == count_class(k, done, LineClass::Comment),
        decreases n - i,
    {
        let ghost sub = text@.subrange(start as int, i as int);
        assert(text@.take(i + 1).drop_last() =~= text@.take(i as int));
        if text[i] == '\n' {
            let c = span_class(k, text.as_slice(), start, i);
            proof {
                lemma_classes_bounded(k, done);
                let old_done = done;
                done = done.push(sub);
                assert(done.drop_last() =~= old_done);
                assert(text@.subrange(i + 1, i + 1) =~= Seq::<char>::empty());
            }
            tally(c, &mut blanks, &mut comments);
            lines = lines + 1;
            start = i + 1;
        } else {
            assert(sub.push(text@[i as int]) =~= text@.subrange(start as int, i + 1));
            assert(done.push(sub).update(done.len() as int, sub.push(text@[i as int]))
                =~= done.push(sub.push(text@[i as int])));
        }
        i = i + 1;
    }
    assert(text@.take(n as int) =~= text@);
    let ghost last = text@.subrange(start as int, n as int);
    if start < n {
        let c = span_class(k, text.as_slice(), start, n);
        proof {
            lemma_classes_bounded(k, done);
            let old_done = done;
            done = done.push(last);
            assert(done.drop_last() =~= old_done);
        }
        tally(c, &mut blanks, &mut comments);
        lines = lines + 1;
    } else if n > 0 {
        proof {
            let e = Seq::<char>::empty();
            let p = pieces(text@.drop_last());
            assert(last =~= e);
            assert(p.push(e) == done.push(e));
            assert(p =~= p.push(e).drop_last());
            assert(done =~= done.push(e).drop_last());
        }
    }
    proof {
        lemma_classes_bounded(k, done);
    }
    FileStats { file_path: path, lines, file_type: k, comments, blanks, characters: n }
}

/// An empty file has no lines, no characters, and no blank or comment lines.
pub proof fn lemma_empty_content(k: FileKind)
    ensures
        lines(Seq::<char>::empty()).len() == 0,
        count_class(k, lines(Seq::<char>::empty()), LineClass::Blank) == 0,
        count_class(k, lines(Seq::<char>::empty()), LineClass::Comment) == 0,
{
}

/// In any text, blank and comment lines together number at most the lines.
pub proof fn lemma_blank_and_comment_within_lines(k: FileKind, content: Seq<char>)
    ensures
        count_class(k, lines(content), LineClass::Blank) + count_class(
            k,
            lines(content),
            LineClass::Comment,
        ) <= lines(content).len(),
{
    lemma_classes_bounded(k, lines(content));
}

} // verus!
