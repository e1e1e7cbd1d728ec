use vstd::prelude::*;
use crate::kind::{kind_name, FileKind};
use crate::scan::FileStats;

verus! {

/// A summed figure of the per-file records.
#[derive(Clone, Copy, Debug, PartialEq, Eq, Structural)]
pub enum Column {
    Lines,
    Characters,
    Comments,
    Blanks,
}

/// The value of column `c` in one record.
pub open spec fn field(r: FileStats, c: Column) -> nat {
    match c {
        Column::Lines => r.lines as nat,
        Column::Characters => r.characters as nat,
        Column::Comments => r.comments as nat,
        Column::Blanks => r.blanks as nat,
    }
}

/// The sum of column `c` over `rs`.
pub open spec fn column_sum(rs: Seq<FileStats>, c: Column) -> nat
    decreases rs.len(),
{
    if rs.len() == 0 {
        0
    } else {
        column_sum(rs.drop_last(), c) + field(rs.last(), c)
    }
}

/// The records of `rs` of kind `k`, in their order.
pub open spec fn of_kind(rs: Seq<FileStats>, k: FileKind) -> Seq<FileStats>
    decreases rs.len(),
{
    if rs.len() == 0 {
        Seq::empty()
    } else if rs.last().file_type == k {
        of_kind(rs.drop_last(), k).push(rs.last())
    } else {
        of_kind(rs.drop_last(), k)
    }
}

/// Whether every column of `rs` sums to a value that a `usize` holds.
pub open spec fn sums_fit(rs: Seq<FileStats>) -> bool {
    forall|c: Column| column_sum(rs, c) <= usize::MAX
}

/// The kinds that occur in `rs`, in ascending order of their names.
pub open spec fn present_kinds(rs: Seq<FileStats>) -> Seq<FileKind> {
    (if of_kind(rs, FileKind::Xml).len() > 0 {
        seq![FileKind::Xml]
    } else {
        Seq::empty()
    }) + (if of_kind(rs, FileKind::Yang).len() > 0 {
        seq![FileKind::Yang]
    } else {
        Seq::empty()
    })
}

/// Whether name `a` sorts strictly before name `b`, character by character.
pub open spec fn name_before(a: Seq<char>, b: Seq<char>) -> bool {
    exists|i: int|
        0 <= i <= a.len() && i <= b.len() && a.take(i) == b.take(i) && (i == a.len() < b.len() || (
        i < a.len() && i < b.len() && (a[i] as u32) < (b[i] as u32)))
}

/// The sums over a group of records.
#[derive(Clone, Copy, Debug, PartialEq, Eq, Structural)]
pub struct Totals {
    pub files: usize,
    pub lines: usize,
    pub characters: usize,
    pub comments: usize,
    pub blanks: usize,
}

impl Totals {
    pub open spec fn column(self, c: Column) -> nat {
        match c {
            Column::Lines => self.lines as nat,
            Column::Characters => self.characters as nat,
            Column::Comments => self.comments as nat,
            Column::Blanks => self.blanks as nat,
        }
    }

    /// Whether these are the sums over `rs`.
    pub open spec fn sums(self, rs: Seq<FileStats>) -> bool {
        &&& self.files == rs.len()
        &&& forall|c: Column| #[trigger] self.column(c) == column_sum(rs, c)
    }

    fn zero() -> (r: Totals)
        ensures
            r.sums(Seq::empty()),
    {
        Totals { files: 0, lines: 0, characters: 0, comments: 0, blanks: 0 }
    }

    /// Whether adding record `r` keeps every sum within a `usize`.
    fn room_for(&self, r: &FileStats) -> (b: bool)
        ensures
            b == forall|c: Column| self.column(c) + field(*r, c) <= usize::MAX,
    {
        let b = r.lines <= usize::MAX - self.lines && r.characters <= usize::MAX - self.characters
            && r.comments <= usize::MAX - self.comments && r.blanks <= usize::MAX - self.blanks;
        assert(b ==> forall|c: Column| self.column(c) + field(*r, c) <= usize::MAX);
        assert(!b ==> {
            ||| self.column(Column::Lines) + field(*r, Column::Lines) > usize::MAX
            ||| self.column(Column::Characters) + field(*r, Column::Characters) > usize::MAX
            ||| self.column(Column::Comments) + field(*r, Column::Comments) > usize::MAX
            ||| self.column(Column::Blanks) + field(*r, Column::Blanks) > usize::MAX
        });
        b
    }

    /// Adds record `r` to the sums.
    fn add(&mut self, r: &FileStats)
        requires
            old(self).files < usize::MAX,
            forall|c: Column| old(self).column(c) + field(*r, c) <= usize::MAX,
        ensures
            final(self).files == old(self).files + 1,
            forall|c: Column| #[trigger]
                final(self).column(c) == old(self).column(c) + field(*r, c),
    {
        assert(old(self).column(Column::Lines) + field(*r, Column::Lines) <= usize::MAX);
        assert(old(self).column(Column::Characters) + field(*r, Column::Characters) <= usize::MAX);
        assert(old(self).column(Column::Comments) + field(*r, Column::Comments) <= usize::MAX);
        assert(old(self).column(Column::Blanks) + field(*r, Column::Blanks) <= usize::MAX);
        self.files = self.files + 1;
        self.lines = self.lines + r.lines;
        self.characters = self.characters + r.characters;
        self.comments = self.comments + r.comments;
        self.blanks = self.blanks + r.blanks;
    }
}

/// One row of the summary: a kind and the sums over its files.
#[derive(Clone, Copy, Debug)]
pub struct SummaryRow {
    pub file_type: FileKind,
    pub totals: Totals,
}

/// The per-kind sums of a run, and their grand total.
#[derive(Clone, Debug)]
pub struct Summary {
    /// One row for each kind that occurs, in ascending order of kind name.
    pub rows: Vec<SummaryRow>,
    /// The sums over all records.
    pub total: Totals,
}

impl Summary {
    /// Whether this is the summary of `rs`.
    pub open spec fn summarizes(&self, rs: Seq<FileStats>) -> bool {
        &&& self.total.sums(rs)
        &&& self.rows@.len() == present_kinds(rs).len()
        &&& forall|i: int|
            0 <= i < self.rows@.len() ==> {
                &&& #[trigger] self.rows@[i].file_type == present_kinds(rs)[i]
                &&& self.rows@[i].totals.sums(of_kind(rs, self.rows@[i].file_type))
            }
    }
}

/// A prefix of the records sums to no more than all of them.
proof fn lemma_prefix_sum_le(rs: Seq<FileStats>, j: int, c: Column)
    requires
        0 <= j <= rs.len(),
    ensures
        column_sum(rs.take(j), c) <= column_sum(rs, c),
    decreases rs.len(),
{
    if j == rs.len() {
        assert(rs.take(j) =~= rs);
    } else {
        lemma_prefix_sum_le(rs.drop_last(), j, c);
        assert(rs.drop_last().take(j) =~= rs.take(j));
    }
}

/// Groups records by kind and sums each group and all of them. Gives `None`
/// exactly when a sum over all records would not fit in a `usize`.
pub fn summarize(records: &Vec<FileStats>) -> (r: Option<Summary>)
    ensures
        r is None <==> !sums_fit(records@),
        r matches Some(s) ==> s.summarizes(records@),
{
    let ghost rs = records@;
    let mut total = Totals::zero();
    let mut xml = Totals::zero();
    let mut yang = Totals::zero();
    let mut i: usize = 0;
    assert(rs.take(0) =~= Seq::<FileStats>::empty());
    while i < records.len()
        invariant
            rs == records@,
            i <= rs.len(),
            total.sums(rs.take(i as int)),
            xml.sums(of_kind(rs.take(i as int), FileKind::Xml)),
            yang.sums(of_kind(rs.take(i as int), FileKind::Yang)),
            xml.files + yang.files == total.files,
            forall|c: Column| #[trigger] total.column(c) == xml.column(c) + yang.column(c),
        decreases rs.len() - i,
    {
        let r = &records[i];
        let ghost pre = rs.take(i as int);
        let ghost next = rs.take(i + 1);
        assert(next.drop_last() =~= pre);
        if !total.room_for(r) {
            proof {
                let c = choose|c: Column| total.column(c) + field(*r, c) > usize::MAX;
                assert(column_sum(next, c) > usize::MAX);
                lemma_prefix_sum_le(rs, i + 1, c);
            }
            return None;
        }
        total.add(r);
        match r.file_type {
            FileKind::Xml => xml.add(r),
            FileKind::Yang => yang.add(r),
        }
        proof {
            assert(of_kind(next, r.file_type).drop_last() =~= of_kind(pre, r.file_type));
        }
        i = i + 1;
    }
    assert(rs.take(rs.len() as int) =~= rs);
    let mut rows: Vec<SummaryRow> = Vec::new();
    if xml.files > 0 {
        rows.push(SummaryRow { file_type: FileKind::Xml, totals: xml });
    }
    if yang.files > 0 {
        rows.push(SummaryRow { file_type: FileKind::Yang, totals: yang });
    }
    let s = Summary { rows, total };
    assert(s.rows@.len() == present_kinds(rs).len());
    assert(s.summarizes(rs));
    assert forall|c: Column| column_sum(rs, c) <= usize::MAX by {
        assert(total.column(c) == column_sum(rs, c));
    }
    Some(s)
}

/// The summary's rows stand in ascending order of kind name.
pub proof fn lemma_rows_sorted(s: Summary, rs: Seq<FileStats>)
    requires
        s.summarizes(rs),
    ensures
        forall|i: int, j: int|
            0 <= i < j < s.rows@.len() ==> name_before(
                kind_name(#[trigger] s.rows@[i].file_type),
                kind_name(#[trigger] s.rows@[j].file_type),
            ),
{
    assert forall|i: int, j: int| 0 <= i < j < s.rows@.len() implies name_before(
        kind_name(#[trigger] s.rows@[i].file_type),
        kind_name(#[trigger] s.rows@[j].file_type),
    ) by {
        assert(s.rows@[i].file_type == present_kinds(rs)[i]);
        assert(s.rows@[j].file_type == present_kinds(rs)[j]);
        assert(present_kinds(rs)[i] == FileKind::Xml);
        assert(present_kinds(rs)[j] == FileKind::Yang);
        let a = kind_name(FileKind::Xml);
        let b = kind_name(FileKind::Yang);
        assert(a.take(0) =~= b.take(0));
    }
}

/// Each record is of one kind, so the groups split the records and their sums.
pub proof fn lemma_kinds_partition(rs: Seq<FileStats>, c: Column)
    ensures
        of_kind(rs, FileKind::Xml).len() + of_kind(rs, FileKind::Yang).len() == rs.len(),
        column_sum(of_kind(rs, FileKind::Xml), c) + column_sum(of_kind(rs, FileKind::Yang), c)
            == column_sum(rs, c),
    decreases rs.len(),
{
    if rs.len() > 0 {
        lemma_kinds_partition(rs.drop_last(), c);
        let k = rs.last().file_type;
        assert(of_kind(rs, k).drop_last() =~= of_kind(rs.drop_last(), k));
    }
}

/// For every kind that occurs among the records, the summary has a row whose
/// file count is the number of records of that kind and whose other figures
/// are the sums of those records' figures; the total row sums the kind rows.
pub proof fn lemma_summary_agrees_with_records(s: Summary, rs: Seq<FileStats>, k: FileKind)
    requires
        s.summarizes(rs),
        of_kind(rs, k).len() > 0,
    ensures
        exists|i: int|
            0 <= i < s.rows@.len() && (#[trigger] s.rows@[i]).file_type == k
                && s.rows@[i].totals.files == of_kind(rs, k).len() && forall|c: Column|
                #[trigger] s.rows@[i].totals.column(c) == column_sum(of_kind(rs, k), c),
        forall|c: Column|
            #[trigger] s.total.column(c) == column_sum(of_kind(rs, FileKind::Xml), c)
                + column_sum(of_kind(rs, FileKind::Yang), c),
        s.total.files == of_kind(rs, FileKind::Xml).len() + of_kind(rs, FileKind::Yang).len(),
{
    let i: int = if k == FileKind::Xml || of_kind(rs, FileKind::Xml).len() == 0 {
        0
    } else {
        1
    };
    assert(s.rows@[i].file_type == present_kinds(rs)[i]);
    assert forall|c: Column| #[trigger]
        s.total.column(c) == column_sum(of_kind(rs, FileKind::Xml), c) + column_sum(
            of_kind(rs, FileKind::Yang),
            c,
        ) by {
        lemma_kinds_partition(rs, c);
    }
    lemma_kinds_partition(rs, Column::Lines);
}

} // verus!
