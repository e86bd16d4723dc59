use vstd::prelude::*;

use crate::error_kind::{law_kinds_and_positions, ErrorKind, KIND_COUNT};
use crate::scanner::{matches_view, ErrorMatch};
use crate::timestamp::{stamp_value, Timestamp};
use crate::vec_ends::{first, last};

verus! {

/// One hardware error read from the kernel log: when it happened and, where
/// its name is known, which kind it is.
#[derive(Clone, Copy)]
pub struct Sighting {
    pub stamp: Timestamp,
    pub kind: Option<ErrorKind>,
}

impl View for Sighting {
    type V = (int, Option<ErrorKind>);

    open spec fn view(&self) -> (int, Option<ErrorKind>) {
        (self.stamp@, self.kind)
    }
}

pub open spec fn sightings_view(v: Seq<Sighting>) -> Seq<(int, Option<ErrorKind>)> {
    v.map_values(|s: Sighting| s@)
}

/// The state of the error log: the errors recorded since the last report,
/// oldest first, and the latest timestamp ever recorded.
pub struct LogState {
    pub seen: Seq<(int, Option<ErrorKind>)>,
    pub last: int,
}

impl LogState {
    /// The log before anything is read: nothing seen, latest time zero.
    pub open spec fn initial() -> LogState {
        LogState { seen: Seq::empty(), last: 0 }
    }

    /// The timestamps of the recorded errors of one kind, oldest first.
    pub open spec fn stamps_of(self, kind: ErrorKind) -> Seq<int> {
        self.seen.filter(|e: (int, Option<ErrorKind>)| e.1 == Some(kind)).map_values(
            |e: (int, Option<ErrorKind>)| e.0,
        )
    }

    /// Recording one error: it is kept only when it is strictly later than
    /// every error recorded before, which drops what a restarted log feed
    /// repeats.
    pub open spec fn record(self, stamp: int, kind: Option<ErrorKind>) -> LogState {
        if stamp > self.last {
            LogState { seen: self.seen.push((stamp, kind)), last: stamp }
        } else {
            self
        }
    }

    /// Recording errors one after another.
    pub open spec fn record_all(self, s: Seq<(int, Option<ErrorKind>)>) -> LogState
        decreases s.len(),
    {
        if s.len() == 0 {
            self
        } else {
            self.record_all(s.drop_last()).record(s.last().0, s.last().1)
        }
    }

    /// The log once a report has been taken: nothing seen, the latest time
    /// kept.
    pub open spec fn cleared(self) -> LogState {
        LogState { seen: Seq::empty(), last: self.last }
    }

    /// What the log keeps true: the recorded errors are in strictly rising
    /// time order, none is later than the latest time, and that time is not
    /// negative.
    pub open spec fn consistent(self) -> bool {
        &&& self.last >= 0
        &&& forall|i: int, j: int|
            0 <= i < j < self.seen.len() ==> #[trigger] self.seen[i].0 < #[trigger] self.seen[j].0
        &&& forall|i: int| 0 <= i < self.seen.len() ==> #[trigger] self.seen[i].0 <= self.last
    }
}

/// Counting the errors of one kind.
pub open spec fn count_kind(seen: Seq<(int, Option<ErrorKind>)>, kind: ErrorKind) -> nat
    decreases seen.len(),
{
    if seen.len() == 0 {
        0
    } else {
        count_kind(seen.drop_last(), kind) + if seen.last().1 == Some(kind) {
            1nat
        } else {
            0nat
        }
    }
}

/// The summary of the errors seen between two reports.
pub struct ReportView {
    pub first: int,
    pub last: int,
    pub counts: Seq<nat>,
}

/// The report on a log that has seen errors: the time of the first and of
/// the last, and how many of each kind, in the order of `ErrorKind`.
pub open spec fn report_of(s: LogState) -> ReportView {
    ReportView {
        first: s.seen[0].0,
        last: s.seen.last().0,
        counts: Seq::new(9, |i: int| count_kind(s.seen, ErrorKind::spec_at(i))),
    }
}

/// The summary of the errors seen since the last report.
pub struct ErrorReport {
    pub first: Timestamp,
    pub last: Timestamp,
    /// How many errors of each kind, indexed by `ErrorKind::index`.
    pub counts: Vec<usize>,
}

impl View for ErrorReport {
    type V = ReportView;

    open spec fn view(&self) -> ReportView {
        ReportView {
            first: self.first@,
            last: self.last@,
            counts: self.counts@.map_values(|c: usize| c as nat),
        }
    }
}

/// The errors found in the matches of the error pattern, in order; `None`
/// when a matched timestamp does not read as a number. A match without a
/// timestamp or without a name is passed over.
pub open spec fn sightings_of(m: Seq<(Seq<char>, Option<Seq<char>>, Option<Seq<char>>)>) -> Option<
    Seq<(int, Option<ErrorKind>)>,
>
    decreases m.len(),
{
    if m.len() == 0 {
        Some(Seq::empty())
    } else {
        match sightings_of(m.drop_last()) {
            None => None,
            Some(prev) => {
                let e = m.last();
                if e.1 is Some && e.2 is Some {
                    match stamp_value(e.1->0) {
                        Some(t) => Some(prev.push((t, ErrorKind::named(e.2->0)))),
                        None => None,
                    }
                } else {
                    Some(prev)
                }
            },
        }
    }
}

/// Reads the errors out of the matches of the error pattern: see
/// `sightings_of`.
pub fn read_sightings(found: &Vec<ErrorMatch>) -> (r: Option<Vec<Sighting>>)
    ensures
        match sightings_of(matches_view(found@)) {
            Some(s) => r matches Some(v) && sightings_view(v@) == s,
            None => r is None,
        },
{
    let ghost m = matches_view(found@);
    let mut out: Vec<Sighting> = Vec::new();
    let mut i: usize = 0;
    while i < found.len()
        invariant
            i <= found.len(),
            m == matches_view(found@),
            sightings_of(m.take(i as int)) == Some(sightings_view(out@)),
        decreases found.len() - i,
    {
        let e = &found[i];
        assert(m.take(i + 1).drop_last() =~= m.take(i as int));
        assert(m.take(i + 1).last() == e@);
        match (&e.stamp, &e.label) {
            (Some(stamp), Some(label)) => {
                match Timestamp::from_kernel_stamp(stamp.as_str()) {
                    Some(t) => {
                        let kind = ErrorKind::from_label(label.as_str());
                        out.push(Sighting { stamp: t, kind });
                        assert(sightings_view(out@) =~= sightings_view(out@.drop_last()).push(
                            out@.last()@,
                        ));
                    },
                    None => {
                        proof {
                            lemma_sightings_none_stays(m, (i + 1) as int);
                        }
                        return None;
                    },
                }
            },
            _ => {},
        }
        i = i + 1;
    }
    assert(m.take(i as int) =~= m);
    Some(out)
}

/// Once a prefix of the matches fails to read, so does every longer prefix.
proof fn lemma_sightings_none_stays(
    m: Seq<(Seq<char>, Option<Seq<char>>, Option<Seq<char>>)>,
    k: int,
)
    requires
        0 <= k <= m.len(),
        sightings_of(m.take(k)) is None,
    ensures
        sightings_of(m) is None,
    decreases m.len() - k,
{
    if k < m.len() {
        assert(m.take(k + 1).drop_last() =~= m.take(k));
        lemma_sightings_none_stays(m, k + 1);
    } else {
        assert(m.take(k) =~= m);
    }
}


/// The log starts consistent.
pub proof fn law_initial_consistent()
    ensures
        LogState::initial().consistent(),
{
}

/// Recording an error keeps the log consistent.
pub proof fn law_record_keeps_consistent(s: LogState, stamp: int, kind: Option<ErrorKind>)
    requires
        s.consistent(),
    ensures
        s.record(stamp, kind).consistent(),
{
    let n = s.record(stamp, kind);
    if stamp > s.last {
        assert forall|i: int, j: int| 0 <= i < j < n.seen.len() implies #[trigger] n.seen[i].0
            < #[trigger] n.seen[j].0 by {
            if j == n.seen.len() - 1 {
                assert(n.seen[i] == s.seen[i]);
                assert(s.seen[i].0 <= s.last);
            } else {
                assert(n.seen[i] == s.seen[i]);
                assert(n.seen[j] == s.seen[j]);
            }
        }
        assert forall|i: int| 0 <= i < n.seen.len() implies #[trigger] n.seen[i].0 <= n.last by {
            if i < s.seen.len() {
                assert(n.seen[i] == s.seen[i]);
                assert(s.seen[i].0 <= s.last);
            }
        }
    }
}

/// Recording errors one after another keeps the log consistent.
pub proof fn law_record_all_keeps_consistent(s: LogState, x: Seq<(int, Option<ErrorKind>)>)
    requires
        s.consistent(),
    ensures
        s.record_all(x).consistent(),
    decreases x.len(),
{
    if x.len() > 0 {
        law_record_all_keeps_consistent(s, x.drop_last());
        law_record_keeps_consistent(s.record_all(x.drop_last()), x.last().0, x.last().1);
    }
}

/// Taking a report keeps the log consistent.
pub proof fn law_clear_keeps_consistent(s: LogState)
    requires
        s.consistent(),
    ensures
        s.cleared().consistent(),
{
}

/// The latest recorded time never goes back.
pub proof fn law_latest_never_decreases(s: LogState, x: Seq<(int, Option<ErrorKind>)>)
    ensures
        s.record_all(x).last >= s.last,
    decreases x.len(),
{
    if x.len() > 0 {
        law_latest_never_decreases(s, x.drop_last());
    }
}

/// After recording errors, none of them is later than the latest time.
proof fn lemma_recorded_not_later(s: LogState, x: Seq<(int, Option<ErrorKind>)>)
    ensures
        forall|i: int| 0 <= i < x.len() ==> #[trigger] x[i].0 <= s.record_all(x).last,
    decreases x.len(),
{
    if x.len() > 0 {
        let p = x.drop_last();
        lemma_recorded_not_later(s, p);
        assert forall|i: int| 0 <= i < x.len() implies #[trigger] x[i].0 <= s.record_all(x).last by {
            if i < p.len() {
                assert(x[i] == p[i]);
            }
        }
    }
}

/// Errors none of which is later than the latest time change nothing.
proof fn lemma_old_errors_ignored(s: LogState, x: Seq<(int, Option<ErrorKind>)>)
    requires
        forall|i: int| 0 <= i < x.len() ==> #[trigger] x[i].0 <= s.last,
    ensures
        s.record_all(x) == s,
    decreases x.len(),
{
    if x.len() > 0 {
        let p = x.drop_last();
        assert forall|i: int| 0 <= i < p.len() implies #[trigger] p[i].0 <= s.last by {
            assert(p[i] == x[i]);
        }
        lemma_old_errors_ignored(s, p);
        assert(x.last() == x[x.len() - 1]);
    }
}

/// Feeding the same errors again, as a restarted kernel log feed does,
/// changes nothing.
pub proof fn law_replay_ignored(s: LogState, x: Seq<(int, Option<ErrorKind>)>)
    ensures
        s.record_all(x).record_all(x) == s.record_all(x),
{
    lemma_recorded_not_later(s, x);
    lemma_old_errors_ignored(s.record_all(x), x);
}

/// Errors recorded after `s` come after its latest time, and the errors that
/// `s` had seen stay in front.
proof fn lemma_new_errors_later(s: LogState, x: Seq<(int, Option<ErrorKind>)>)
    ensures
        s.record_all(x).seen.len() >= s.seen.len(),
        forall|i: int| 0 <= i < s.seen.len() ==> #[trigger] s.record_all(x).seen[i] == s.seen[i],
        forall|i: int|
            s.seen.len() <= i < s.record_all(x).seen.len() ==> #[trigger] s.record_all(x).seen[i].0
                > s.last,
    decreases x.len(),
{
    if x.len() > 0 {
        let p = x.drop_last();
        lemma_new_errors_later(s, p);
        law_latest_never_decreases(s, p);
        let m = s.record_all(p);
        let n = s.record_all(x);
        assert forall|i: int| 0 <= i < s.seen.len() implies #[trigger] n.seen[i] == s.seen[i] by {
            assert(m.seen[i] == s.seen[i]);
        }
        assert forall|i: int| s.seen.len() <= i < n.seen.len() implies #[trigger] n.seen[i].0
            > s.last by {
            if i < m.seen.len() {
                assert(n.seen[i] == m.seen[i]);
            }
        }
    }
}

/// Reports come in time order: every error in a report is later than every
/// error in the report before it.
pub proof fn law_reports_in_time_order(s: LogState, x: Seq<(int, Option<ErrorKind>)>)
    requires
        s.consistent(),
        s.seen.len() > 0,
    ensures
        forall|i: int|
            0 <= i < s.cleared().record_all(x).seen.len() ==> #[trigger] s.cleared().record_all(
                x,
            ).seen[i].0 > report_of(s).last,
{
    lemma_new_errors_later(s.cleared(), x);
    assert(s.seen[s.seen.len() - 1].0 <= s.last);
}

/// In a report the first error is no later than the last.
pub proof fn law_report_span(s: LogState)
    requires
        s.consistent(),
        s.seen.len() > 0,
    ensures
        report_of(s).first <= report_of(s).last,
{
    if s.seen.len() > 1 {
        assert(s.seen[0].0 < s.seen[s.seen.len() - 1].0);
    }
}

/// How many recorded errors have a known kind.
pub open spec fn count_named(seen: Seq<(int, Option<ErrorKind>)>) -> nat
    decreases seen.len(),
{
    if seen.len() == 0 {
        0
    } else {
        count_named(seen.drop_last()) + if seen.last().1 is Some {
            1nat
        } else {
            0nat
        }
    }
}

/// The sum of the counts of all kinds.
pub open spec fn sum_of_counts(seen: Seq<(int, Option<ErrorKind>)>) -> nat {
    count_kind(seen, ErrorKind::SingleBitError) + count_kind(seen, ErrorKind::SystemError)
        + count_kind(seen, ErrorKind::CpuMemoryError) + count_kind(seen, ErrorKind::MachineCheckError)
        + count_kind(seen, ErrorKind::GpuL2Error) + count_kind(seen, ErrorKind::MmuFault)
        + count_kind(seen, ErrorKind::FlashWriteTimeout) + count_kind(seen, ErrorKind::FlashReadTimeout)
        + count_kind(seen, ErrorKind::WatchdogDetected)
}

proof fn lemma_count_kind_step(seen: Seq<(int, Option<ErrorKind>)>, kind: ErrorKind)
    requires
        seen.len() > 0,
    ensures
        count_kind(seen, kind) == count_kind(seen.drop_last(), kind) + if seen.last().1 == Some(
            kind,
        ) {
            1nat
        } else {
            0nat
        },
{
}

/// Every error of a known kind is counted under exactly one kind.
pub proof fn law_counts_cover_named_errors(seen: Seq<(int, Option<ErrorKind>)>)
    ensures
        sum_of_counts(seen) == count_named(seen),
        count_named(seen) <= seen.len(),
    decreases seen.len(),
{
    if seen.len() > 0 {
        let p = seen.drop_last();
        law_counts_cover_named_errors(p);
        lemma_count_kind_step(seen, ErrorKind::SingleBitError);
        lemma_count_kind_step(seen, ErrorKind::SystemError);
        lemma_count_kind_step(seen, ErrorKind::CpuMemoryError);
        lemma_count_kind_step(seen, ErrorKind::MachineCheckError);
        lemma_count_kind_step(seen, ErrorKind::GpuL2Error);
        lemma_count_kind_step(seen, ErrorKind::MmuFault);
        lemma_count_kind_step(seen, ErrorKind::FlashWriteTimeout);
        lemma_count_kind_step(seen, ErrorKind::FlashReadTimeout);
        lemma_count_kind_step(seen, ErrorKind::WatchdogDetected);
        assert(count_named(seen) == count_named(p) + if seen.last().1 is Some {
            1nat
        } else {
            0nat
        });
        match seen.last().1 {
            Some(k) => {
                match k {
                    ErrorKind::SingleBitError => {},
                    ErrorKind::SystemError => {},
                    ErrorKind::CpuMemoryError => {},
                    ErrorKind::MachineCheckError => {},
                    ErrorKind::GpuL2Error => {},
                    ErrorKind::MmuFault => {},
                    ErrorKind::FlashWriteTimeout => {},
                    ErrorKind::FlashReadTimeout => {},
                    ErrorKind::WatchdogDetected => {},
                }
            },
            None => {},
        }
    }
}


/// Whether a recorded error is of `kind`.
pub open spec fn of_kind(kind: ErrorKind) -> spec_fn((int, Option<ErrorKind>)) -> bool {
    |e: (int, Option<ErrorKind>)| e.1 == Some(kind)
}

/// The count of a kind is the number of recorded errors of that kind,
/// wherever they stand.
pub proof fn law_count_is_number_of_kind(seen: Seq<(int, Option<ErrorKind>)>, kind: ErrorKind)
    ensures
        count_kind(seen, kind) == seen.filter(of_kind(kind)).len(),
    decreases seen.len(),
{
    reveal(Seq::filter);
    if seen.len() > 0 {
        law_count_is_number_of_kind(seen.drop_last(), kind);
    }
}

/// A report counts, at each kind's place, the recorded errors of that kind.
pub proof fn law_report_counts_each_kind(s: LogState, kind: ErrorKind)
    requires
        s.seen.len() > 0,
    ensures
        report_of(s).counts.len() == 9,
        report_of(s).counts[kind.spec_index()] == s.seen.filter(of_kind(kind)).len(),
{
    law_kinds_and_positions(kind);
    law_count_is_number_of_kind(s.seen, kind);
}

/// A report's first and last times are the earliest and the latest of the
/// recorded errors.
pub proof fn law_report_spans_recorded_errors(s: LogState)
    requires
        s.consistent(),
        s.seen.len() > 0,
    ensures
        forall|i: int|
            0 <= i < s.seen.len() ==> report_of(s).first <= #[trigger] s.seen[i].0 <= report_of(
                s,
            ).last,
        exists|i: int| 0 <= i < s.seen.len() && #[trigger] s.seen[i].0 == report_of(s).first,
        exists|i: int| 0 <= i < s.seen.len() && #[trigger] s.seen[i].0 == report_of(s).last,
{
    let n = s.seen.len();
    assert forall|i: int| 0 <= i < n implies report_of(s).first <= #[trigger] s.seen[i].0
        <= report_of(s).last by {
        if 0 < i {
            assert(s.seen[0].0 < s.seen[i].0);
        }
        if i < n - 1 {
            assert(s.seen[i].0 < s.seen[n - 1].0);
        }
    }
    assert(s.seen[0].0 == report_of(s).first);
    assert(s.seen[n - 1].0 == report_of(s).last);
}

/// An error strictly later than the latest recorded time is always kept, at
/// the end, and becomes the latest time.
pub proof fn law_later_error_is_kept(s: LogState, stamp: int, kind: Option<ErrorKind>)
    requires
        stamp > s.last,
    ensures
        s.record(stamp, kind).seen == s.seen.push((stamp, kind)),
        s.record(stamp, kind).last == stamp,
{
}

/// An error no later than the latest recorded time changes nothing.
pub proof fn law_earlier_error_is_dropped(s: LogState, stamp: int, kind: Option<ErrorKind>)
    requires
        stamp <= s.last,
    ensures
        s.record(stamp, kind) == s,
{
}

/// The hardware errors read from the kernel log since the last report.
pub struct ErrorLog {
    seen: Vec<Sighting>,
    last: Timestamp,
}

impl View for ErrorLog {
    type V = LogState;

    closed spec fn view(&self) -> LogState {
        LogState { seen: sightings_view(self.seen@), last: self.last@ }
    }
}

impl ErrorLog {
    /// An empty log whose latest time is zero.
    pub fn new() -> (log: ErrorLog)
        ensures
            log@ == LogState::initial(),
            log@.consistent(),
    {
        let log = ErrorLog { seen: Vec::new(), last: Timestamp::zero() };
        assert(log@.seen =~= Seq::<(int, Option<ErrorKind>)>::empty());
        log
    }

    /// How many errors were recorded since the last report.
    pub fn len(&self) -> (n: usize)
        ensures
            n == self@.seen.len(),
    {
        self.seen.len()
    }

    /// The latest time ever recorded.
    pub fn latest(&self) -> (t: Timestamp)
        ensures
            t@ == self@.last,
    {
        self.last
    }

    /// How many errors of `kind` were recorded since the last report.
    pub fn count_of(&self, kind: ErrorKind) -> (n: usize)
        ensures
            n == count_kind(self@.seen, kind),
    {
        let mut n: usize = 0;
        let mut i: usize = 0;
        while i < self.seen.len()
            invariant
                i <= self.seen.len(),
                n == count_kind(sightings_view(self.seen@).take(i as int), kind),
                n <= i,
            decreases self.seen.len() - i,
        {
            let ghost s = sightings_view(self.seen@);
            assert(s.take(i + 1).drop_last() =~= s.take(i as int));
            match self.seen[i].kind {
                Some(k) => {
                    if k == kind {
                        n = n + 1;
                    }
                },
                None => {},
            }
            i = i + 1;
        }
        assert(sightings_view(self.seen@).take(i as int) =~= sightings_view(self.seen@));
        n
    }

    /// Records one error: see `LogState::record`.
    pub fn record(&mut self, stamp: Timestamp, kind: Option<ErrorKind>)
        ensures
            final(self)@ == old(self)@.record(stamp@, kind),
            old(self)@.consistent() ==> final(self)@.consistent(),
    {
        proof {
            if old(self)@.consistent() {
                law_record_keeps_consistent(old(self)@, stamp@, kind);
            }
        }
        if stamp.is_after(&self.last) {
            self.last = stamp;
            self.seen.push(Sighting { stamp, kind });
            assert(sightings_view(self.seen@) =~= sightings_view(old(self).seen@).push(
                (stamp@, kind),
            ));
        }
    }

    /// Records errors one after another: see `LogState::record_all`.
    pub fn record_sightings(&mut self, sightings: &Vec<Sighting>)
        ensures
            final(self)@ == old(self)@.record_all(sightings_view(sightings@)),
            old(self)@.consistent() ==> final(self)@.consistent(),
    {
        proof {
            if old(self)@.consistent() {
                law_record_all_keeps_consistent(old(self)@, sightings_view(sightings@));
            }
        }
        let ghost s = sightings_view(sightings@);
        let mut i: usize = 0;
        while i < sightings.len()
            invariant
                i <= sightings.len(),
                s == sightings_view(sightings@),
                self@ == old(self)@.record_all(s.take(i as int)),
            decreases sightings.len() - i,
        {
            assert(s.take(i + 1).drop_last() =~= s.take(i as int));
            let e = sightings[i];
            self.record(e.stamp, e.kind);
            i = i + 1;
        }
        assert(s.take(i as int) =~= s);
    }

    /// When errors were seen since the last report, the report on them, and
    /// the log is emptied (its latest time kept); otherwise nothing changes.
    pub fn take_report(&mut self) -> (r: Option<ErrorReport>)
        ensures
            old(self)@.seen.len() > 0 ==> (r matches Some(rep) && rep@ == report_of(old(self)@)),
            old(self)@.seen.len() > 0 ==> final(self)@ == old(self)@.cleared(),
            old(self)@.seen.len() == 0 ==> r is None && final(self)@ == old(self)@,
            old(self)@.consistent() ==> final(self)@.consistent(),
            old(self)@.consistent() ==> (r matches Some(rep) ==> rep.first@ <= rep.last@),
    {
        proof {
            if old(self)@.consistent() && old(self)@.seen.len() > 0 {
                law_report_span(old(self)@);
            }
        }
        let head = first(&self.seen);
        let tail = last(&self.seen);
        match (head, tail) {
            (Some(h), Some(t)) => {
                let first_stamp = h.stamp;
                let last_stamp = t.stamp;
                let mut counts: Vec<usize> = Vec::new();
                let mut k: usize = 0;
                while k < KIND_COUNT
                    invariant
                        k <= KIND_COUNT,
                        counts@.len() == k,
                        forall|j: int|
                            0 <= j < k ==> counts@[j] as nat == count_kind(
                                self@.seen,
                                ErrorKind::spec_at(j),
                            ),
                    decreases KIND_COUNT - k,
                {
                    let c = self.count_of(ErrorKind::at(k));
                    counts.push(c);
                    k = k + 1;
                }
                let rep = ErrorReport { first: first_stamp, last: last_stamp, counts };
                assert(rep@.counts =~= report_of(self@).counts);
                self.seen = Vec::new();
                assert(self@.seen =~= Seq::<(int, Option<ErrorKind>)>::empty());
                Some(rep)
            },
            _ => None,
        }
    }
}

} // verus!
