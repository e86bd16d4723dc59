use vstd::prelude::*;

use crate::decimal::{decimal, push_decimal};

verus! {

/// How a stretch of text fares between an old and a new listing.
#[derive(Clone, Copy, Debug, PartialEq, Eq, Structural)]
pub enum ChunkKind {
    /// In both listings.
    Same,
    /// Only in the new listing.
    Added,
    /// Only in the old listing.
    Removed,
}

/// A stretch of lines that fare alike, joined by line breaks.
pub struct DiffChunk {
    pub kind: ChunkKind,
    pub text: String,
}

impl View for DiffChunk {
    type V = (ChunkKind, Seq<char>);

    open spec fn view(&self) -> (ChunkKind, Seq<char>) {
        (self.kind, self.text@)
    }
}

pub open spec fn chunks_view(v: Seq<DiffChunk>) -> Seq<(ChunkKind, Seq<char>)> {
    v.map_values(|c: DiffChunk| c@)
}

/// The changeset that the `difference` crate computes between `orig` and
/// `edit` split at `split`: its chunks in order of appearance.
pub uninterp spec fn changeset_chunks(orig: Seq<char>, edit: Seq<char>, split: Seq<char>) -> Seq<
    (ChunkKind, Seq<char>),
>;

/// How many line breaks `s` holds.
pub open spec fn line_breaks(s: Seq<char>) -> nat
    decreases s.len(),
{
    if s.len() == 0 {
        0
    } else {
        line_breaks(s.drop_last()) + if s.last() == '\n' {
            1nat
        } else {
            0nat
        }
    }
}

/// Listings small enough for the changeset's table of `N * M` indices, where
/// `N` and `M` are their numbers of lines (line breaks plus one): the table's
/// size in bytes must not pass `isize::MAX`.
pub open spec fn diffable(orig: Seq<char>, edit: Seq<char>) -> bool {
    (line_breaks(orig) + 1) * (line_breaks(edit) + 1) * 8 <= isize::MAX
}

/// Counts the line breaks in `s`.
fn count_line_breaks(s: &str) -> (n: u128)
    ensures
        n == line_breaks(s@),
        n <= usize::MAX,
{
    let cs = crate::text::chars_of(s);
    let mut n: u128 = 0;
    let mut i: usize = 0;
    while i < cs.len()
        invariant
            i <= cs.len(),
            cs@ == s@,
            n == line_breaks(cs@.take(i as int)),
            n <= i,
        decreases cs.len() - i,
    {
        assert(cs@.take(i + 1).drop_last() =~= cs@.take(i as int));
        if cs[i] == '\n' {
            n = n + 1;
        }
        i = i + 1;
    }
    assert(cs@.take(i as int) =~= cs@);
    n
}

/// Whether two listings can be compared: see `diffable`.
pub fn is_diffable(orig: &str, edit: &str) -> (r: bool)
    ensures
        r == diffable(orig@, edit@),
{
    let n = count_line_breaks(orig) + 1;
    let m = count_line_breaks(edit) + 1;
    let limit: u128 = (isize::MAX as u128) / 8;
    assert(isize::MAX == limit * 8 + 7);
    if n > limit {
        assert(n * m * 8 > isize::MAX) by (nonlinear_arith)
            requires
                n > limit,
                m >= 1,
                isize::MAX == limit * 8 + 7,
        ;
        return false;
    }
    if m > limit {
        assert(n * m * 8 > isize::MAX) by (nonlinear_arith)
            requires
                m > limit,
                n >= 1,
                isize::MAX == limit * 8 + 7,
        ;
        return false;
    }
    assert(limit <= 0x1000_0000_0000_0000);
    assert(n * m <= u128::MAX) by (nonlinear_arith)
        requires
            n <= 0x1000_0000_0000_0000,
            m <= 0x1000_0000_0000_0000,
    ;
    let p = n * m;
    assert((p * 8 <= isize::MAX) == (p <= limit)) by (nonlinear_arith)
        requires
            isize::MAX == limit * 8 + 7,
    ;
    p <= limit
}

/// Calls `difference::Changeset::new(orig, edit, split)` and copies out its
/// `diffs`, one chunk per `Difference`. Claimed: the chunks are a function of
/// the three texts, named `changeset_chunks`; and, as its `merge` shows for
/// line splits, equal texts give one unchanged chunk holding the text (none
/// when empty), and when exactly one side is empty the other side is one
/// added or removed chunk. Nothing else is claimed of what the chunks hold.
#[verifier::external_body]
fn changeset(orig: &str, edit: &str, split: &str) -> (chunks: Vec<DiffChunk>)
    requires
        split@ == "\n"@,
        diffable(orig@, edit@),
    ensures
        chunks_view(chunks@) == changeset_chunks(orig@, edit@, split@),
        orig@ == edit@ && orig@.len() == 0 ==> chunks@.len() == 0,
        orig@ == edit@ && orig@.len() > 0 ==> chunks_view(chunks@) == seq![
            (ChunkKind::Same, orig@),
        ],
        orig@.len() == 0 && edit@.len() > 0 ==> chunks_view(chunks@) == seq![
            (ChunkKind::Added, edit@),
        ],
        orig@.len() > 0 && edit@.len() == 0 ==> chunks_view(chunks@) == seq![
            (ChunkKind::Removed, orig@),
        ],
{
    difference::Changeset::new(orig, edit, split).diffs.into_iter().map(
        |d| match d {
            difference::Difference::Same(text) => DiffChunk { kind: ChunkKind::Same, text },
            difference::Difference::Add(text) => DiffChunk { kind: ChunkKind::Added, text },
            difference::Difference::Rem(text) => DiffChunk { kind: ChunkKind::Removed, text },
        },
    ).collect()
}

/// How many chunks are of `kind`.
pub open spec fn count_chunks(s: Seq<(ChunkKind, Seq<char>)>, kind: ChunkKind) -> nat
    decreases s.len(),
{
    if s.len() == 0 {
        0
    } else {
        count_chunks(s.drop_last(), kind) + if s.last().0 == kind {
            1nat
        } else {
            0nat
        }
    }
}

/// The lines printed for the changes, in order: `+` before what was added,
/// `-` before what was removed; unchanged chunks print nothing.
pub open spec fn change_lines(s: Seq<(ChunkKind, Seq<char>)>) -> Seq<Seq<char>>
    decreases s.len(),
{
    if s.len() == 0 {
        Seq::empty()
    } else {
        let e = s.last();
        match e.0 {
            ChunkKind::Same => change_lines(s.drop_last()),
            ChunkKind::Added => change_lines(s.drop_last()).push(seq!['+'] + e.1),
            ChunkKind::Removed => change_lines(s.drop_last()).push(seq!['-'] + e.1),
        }
    }
}

/// What a comparison of two listings found: how many chunks stayed, were
/// added and were removed, and the lines that show the changes.
pub struct DiffReport {
    pub same: usize,
    pub added: usize,
    pub removed: usize,
    pub changes: Vec<String>,
}

impl DiffReport {
    /// The report exactly describes the chunks `s`.
    pub open spec fn describes(&self, s: Seq<(ChunkKind, Seq<char>)>) -> bool {
        &&& self.same == count_chunks(s, ChunkKind::Same)
        &&& self.added == count_chunks(s, ChunkKind::Added)
        &&& self.removed == count_chunks(s, ChunkKind::Removed)
        &&& self.changes@.len() == change_lines(s).len()
        &&& forall|i: int|
            0 <= i < self.changes@.len() ==> #[trigger] self.changes@[i]@ == change_lines(s)[i]
    }

    /// The closing line of a report.
    pub open spec fn spec_summary(&self) -> Seq<char> {
        "Same lines: "@ + decimal(self.same as nat) + ", New Lines: "@ + decimal(
            self.added as nat,
        ) + ", Removed lines: "@ + decimal(self.removed as nat)
    }

    /// The closing line of a report, with the three counts.
    pub fn summary_line(&self) -> (s: String)
        ensures
            s@ == self.spec_summary(),
    {
        let mut s = String::new();
        s.append("Same lines: ");
        push_decimal(&mut s, self.same as u128);
        s.append(", New Lines: ");
        push_decimal(&mut s, self.added as u128);
        s.append(", Removed lines: ");
        push_decimal(&mut s, self.removed as u128);
        s
    }
}

/// Tallies a changeset: see `DiffReport::describes`.
pub fn tally_changes(chunks: &Vec<DiffChunk>) -> (r: DiffReport)
    ensures
        r.describes(chunks_view(chunks@)),
{
    let ghost s = chunks_view(chunks@);
    let mut same: usize = 0;
    let mut added: usize = 0;
    let mut removed: usize = 0;
    let mut changes: Vec<String> = Vec::new();
    let mut i: usize = 0;
    while i < chunks.len()
        invariant
            i <= chunks.len(),
            s == chunks_view(chunks@),
            same == count_chunks(s.take(i as int), ChunkKind::Same),
            added == count_chunks(s.take(i as int), ChunkKind::Added),
            removed == count_chunks(s.take(i as int), ChunkKind::Removed),
            same + added + removed == i,
            changes@.len() == change_lines(s.take(i as int)).len(),
            forall|k: int|
                0 <= k < changes@.len() ==> #[trigger] changes@[k]@ == change_lines(
                    s.take(i as int),
                )[k],
        decreases chunks.len() - i,
    {
        let ghost t = s.take(i + 1);
        assert(t.drop_last() =~= s.take(i as int));
        assert(t.last() == chunks@[i as int]@);
        let c = &chunks[i];
        match c.kind {
            ChunkKind::Same => {
                same = same + 1;
            },
            ChunkKind::Added => {
                added = added + 1;
                let mut line = String::new();
                line.append("+");
                line.append(c.text.as_str());
                proof {
                    reveal_strlit("+");
                }
                assert(line@ =~= seq!['+'] + c.text@);
                changes.push(line);
            },
            ChunkKind::Removed => {
                removed = removed + 1;
                let mut line = String::new();
                line.append("-");
                line.append(c.text.as_str());
                proof {
                    reveal_strlit("-");
                }
                assert(line@ =~= seq!['-'] + c.text@);
                changes.push(line);
            },
        }
        i = i + 1;
    }
    assert(s.take(i as int) =~= s);
    DiffReport { same, added, removed, changes }
}

/// Compares two listings line by line and tallies the changes.
pub fn compare_listings(old_listing: &String, new_listing: &String) -> (r: DiffReport)
    requires
        diffable(old_listing@, new_listing@),
    ensures
        r.describes(changeset_chunks(old_listing@, new_listing@, "\n"@)),
        old_listing@ == new_listing@ ==> r.same == (if old_listing@.len() == 0 {
            0usize
        } else {
            1usize
        }) && r.added == 0 && r.removed == 0 && r.changes@.len() == 0,
        old_listing@.len() == 0 && new_listing@.len() > 0 ==> r.same == 0 && r.added == 1 && r.removed == 0
            && r.changes@.len() == 1 && r.changes@[0]@ == seq!['+'] + new_listing@,
        old_listing@.len() > 0 && new_listing@.len() == 0 ==> r.same == 0 && r.added == 0 && r.removed == 1
            && r.changes@.len() == 1 && r.changes@[0]@ == seq!['-'] + old_listing@,
{
    let chunks = changeset(old_listing.as_str(), new_listing.as_str(), "\n");
    let r = tally_changes(&chunks);
    proof {
        let c = chunks_view(chunks@);
        let e = Seq::<(ChunkKind, Seq<char>)>::empty();
        assert(c.len() == chunks@.len());
        if c.len() == 0 {
            assert(c =~= e);
        }
        if c.len() == 1 {
            assert(c.drop_last() =~= e);
            assert(change_lines(e) =~= Seq::<Seq<char>>::empty());
            assert(count_chunks(e, ChunkKind::Same) == 0);
            assert(count_chunks(e, ChunkKind::Added) == 0);
            assert(count_chunks(e, ChunkKind::Removed) == 0);
        }
    }
    r
}

/// Compares two process listings: see `compare_listings`.
pub fn process_ps_output(ps_output_1: &String, ps_output_2: &String) -> (r: DiffReport)
    requires
        diffable(ps_output_1@, ps_output_2@),
    ensures
        r.describes(changeset_chunks(ps_output_1@, ps_output_2@, "\n"@)),
        ps_output_1@ == ps_output_2@ ==> r.same == (if ps_output_1@.len() == 0 {
            0usize
        } else {
            1usize
        }) && r.added == 0 && r.removed == 0 && r.changes@.len() == 0,
        ps_output_1@.len() == 0 && ps_output_2@.len() > 0 ==> r.same == 0 && r.added == 1 && r.removed == 0
            && r.changes@.len() == 1 && r.changes@[0]@ == seq!['+'] + ps_output_2@,
        ps_output_1@.len() > 0 && ps_output_2@.len() == 0 ==> r.same == 0 && r.added == 0 && r.removed == 1
            && r.changes@.len() == 1 && r.changes@[0]@ == seq!['-'] + ps_output_1@,
{
    compare_listings(ps_output_1, ps_output_2)
}

/// Compares two hardware listings: see `compare_listings`.
pub fn process_lshw_output(lshw_output_1: &String, lshw_output_2: &String) -> (r: DiffReport)
    requires
        diffable(lshw_output_1@, lshw_output_2@),
    ensures
        r.describes(changeset_chunks(lshw_output_1@, lshw_output_2@, "\n"@)),
        lshw_output_1@ == lshw_output_2@ ==> r.same == (if lshw_output_1@.len() == 0 {
            0usize
        } else {
            1usize
        }) && r.added == 0 && r.removed == 0 && r.changes@.len() == 0,
        lshw_output_1@.len() == 0 && lshw_output_2@.len() > 0 ==> r.same == 0 && r.added == 1 && r.removed == 0
            && r.changes@.len() == 1 && r.changes@[0]@ == seq!['+'] + lshw_output_2@,
        lshw_output_1@.len() > 0 && lshw_output_2@.len() == 0 ==> r.same == 0 && r.added == 0 && r.removed == 1
            && r.changes@.len() == 1 && r.changes@[0]@ == seq!['-'] + lshw_output_1@,
{
    compare_listings(lshw_output_1, lshw_output_2)
}

/// A changeset determines its report: two reports that describe the same
/// chunks agree in every count, every change line and the closing line, so
/// comparing the same two listings as processes or as hardware prints the
/// same text.
pub proof fn law_report_determined_by_changeset(
    r1: DiffReport,
    r2: DiffReport,
    s: Seq<(ChunkKind, Seq<char>)>,
)
    requires
        r1.describes(s),
        r2.describes(s),
    ensures
        r1.same == r2.same,
        r1.added == r2.added,
        r1.removed == r2.removed,
        r1.changes@.len() == r2.changes@.len(),
        forall|i: int| 0 <= i < r1.changes@.len() ==> #[trigger] r1.changes@[i]@ == r2.changes@[i]@,
        r1.spec_summary() == r2.spec_summary(),
{
    assert forall|i: int| 0 <= i < r1.changes@.len() implies #[trigger] r1.changes@[i]@
        == r2.changes@[i]@ by {
        assert(r1.changes@[i]@ == change_lines(s)[i]);
        assert(r2.changes@[i]@ == change_lines(s)[i]);
    }
}

/// Whether a chunk is of `kind`.
pub open spec fn chunk_of_kind(kind: ChunkKind) -> spec_fn((ChunkKind, Seq<char>)) -> bool {
    |c: (ChunkKind, Seq<char>)| c.0 == kind
}

/// Each chunk is counted under its own kind, wherever it stands: the count of
/// a kind is the number of chunks of that kind.
pub proof fn law_count_is_number_of_chunks(s: Seq<(ChunkKind, Seq<char>)>, kind: ChunkKind)
    ensures
        count_chunks(s, kind) == s.filter(chunk_of_kind(kind)).len(),
    decreases s.len(),
{
    reveal(Seq::filter);
    if s.len() > 0 {
        law_count_is_number_of_chunks(s.drop_last(), kind);
    }
}

/// Adding a chunk at the end adds one to its own kind's count and nothing to
/// the others, and adds its change line, if any, at the end.
pub proof fn law_tally_grows_by_one_chunk(
    s: Seq<(ChunkKind, Seq<char>)>,
    c: (ChunkKind, Seq<char>),
    kind: ChunkKind,
)
    ensures
        count_chunks(s.push(c), kind) == count_chunks(s, kind) + if c.0 == kind {
            1nat
        } else {
            0nat
        },
        c.0 == ChunkKind::Same ==> change_lines(s.push(c)) == change_lines(s),
        c.0 == ChunkKind::Added ==> change_lines(s.push(c)) == change_lines(s).push(
            seq!['+'] + c.1,
        ),
        c.0 == ChunkKind::Removed ==> change_lines(s.push(c)) == change_lines(s).push(
            seq!['-'] + c.1,
        ),
{
    assert(s.push(c).drop_last() =~= s);
}

/// Every chunk is counted once: the three counts add up to the number of
/// chunks, and one line shows each chunk that is not unchanged.
pub proof fn law_counts_cover_chunks(s: Seq<(ChunkKind, Seq<char>)>)
    ensures
        count_chunks(s, ChunkKind::Same) + count_chunks(s, ChunkKind::Added) + count_chunks(
            s,
            ChunkKind::Removed,
        ) == s.len(),
        change_lines(s).len() == count_chunks(s, ChunkKind::Added) + count_chunks(
            s,
            ChunkKind::Removed,
        ),
    decreases s.len(),
{
    if s.len() > 0 {
        law_counts_cover_chunks(s.drop_last());
    }
}

} // verus!
