use vstd::prelude::*;
use crate::debug::runtime_reporter::ReportItem;
use crate::debug::runtime_reporter::RuntimeReporter;

verus! {

/// What was measured of one span: the time of all its runs together, their number and
/// the time of the last run. Times are in nanoseconds.
pub struct SpanRecord {
    pub name: String,
    pub total: u128,
    pub count: u32,
    pub last: u128,
}

/// A record as plain values.
pub struct SpanTotals {
    pub name: Seq<char>,
    pub total: u128,
    pub count: u32,
    pub last: u128,
}

impl View for SpanRecord {
    type V = SpanTotals;

    open spec fn view(&self) -> SpanTotals {
        SpanTotals { name: self.name@, total: self.total, count: self.count, last: self.last }
    }
}

/// The measurements of the spans that ran since the last report, in the order in which
/// the spans first ran.
pub struct RuntimeStorage {
    records: Vec<SpanRecord>,
}

/// The sum of two times, or the largest time where the sum goes beyond it.
pub open spec fn add_time(a: u128, b: u128) -> u128 {
    if a + b > u128::MAX {
        u128::MAX
    } else {
        (a + b) as u128
    }
}

/// One more than `n`, or `n` where there is no larger number.
pub open spec fn one_more(n: u32) -> u32 {
    if n == u32::MAX {
        n
    } else {
        (n + 1) as u32
    }
}

/// The first place among `records` of a span called `name`; the number of records where
/// there is none.
pub open spec fn place_of(records: Seq<SpanTotals>, name: Seq<char>) -> int
    decreases records.len(),
{
    if records.len() == 0 {
        0
    } else if records[0].name == name {
        0
    } else {
        1 + place_of(records.drop_first(), name)
    }
}

/// The records after a span called `name` ran for `elapsed`: its record is brought up
/// to date, or a record is added at the end if the span ran for the first time.
pub open spec fn with_run(records: Seq<SpanTotals>, name: Seq<char>, elapsed: u128) -> Seq<SpanTotals> {
    let at = place_of(records, name);
    if at < records.len() {
        records.update(
            at,
            SpanTotals {
                name,
                total: add_time(records[at].total, elapsed),
                count: one_more(records[at].count),
                last: elapsed,
            },
        )
    } else {
        records.push(SpanTotals { name, total: elapsed, count: 1, last: elapsed })
    }
}

/// No two records are of the same span.
pub open spec fn distinct_names(records: Seq<SpanTotals>) -> bool {
    forall|i: int, j: int| 0 <= i < j < records.len() ==> records[i].name != records[j].name
}

/// Where `place_of` points: at the first record of that name, or behind the last record
/// if no record has it.
pub proof fn lemma_place_of(records: Seq<SpanTotals>, name: Seq<char>)
    ensures
        0 <= place_of(records, name) <= records.len(),
        place_of(records, name) < records.len() ==> records[place_of(records, name)].name == name,
        forall|i: int| 0 <= i < place_of(records, name) ==> (#[trigger] records[i]).name != name,
    decreases records.len(),
{
    if records.len() > 0 && records[0].name != name {
        lemma_place_of(records.drop_first(), name);
        let rest = records.drop_first();
        assert forall|i: int| 0 <= i < place_of(records, name) implies (#[trigger] records[i]).name
            != name by {
            if i > 0 {
                assert(rest[i - 1] == records[i]);
            }
        }
    }
}

/// A place is the one `place_of` gives where it holds the name and no place before it
/// does.
pub proof fn lemma_place_found(records: Seq<SpanTotals>, name: Seq<char>, at: int)
    requires
        0 <= at <= records.len(),
        at < records.len() ==> records[at].name == name,
        forall|i: int| 0 <= i < at ==> (#[trigger] records[i]).name != name,
    ensures
        place_of(records, name) == at,
{
    lemma_place_of(records, name);
    let found = place_of(records, name);
    if found < at {
        assert(records[found].name == name);
    }
}

/// A run keeps the names of the records distinct.
pub proof fn lemma_with_run_distinct(records: Seq<SpanTotals>, name: Seq<char>, elapsed: u128)
    requires
        distinct_names(records),
    ensures
        distinct_names(with_run(records, name, elapsed)),
{
    lemma_place_of(records, name);
}

impl RuntimeStorage {
    /// The records as plain values.
    pub closed spec fn view(&self) -> Seq<SpanTotals> {
        Seq::new(self.records@.len(), |i: int| self.records@[i]@)
    }

    /// No two records are of the same span.
    pub open spec fn wf(self) -> bool {
        distinct_names(self@)
    }

    /// A storage without records.
    pub fn new() -> (s: RuntimeStorage)
        ensures
            s@ == Seq::<SpanTotals>::empty(),
            s.wf(),
    {
        let s = RuntimeStorage { records: Vec::new() };
        assert(s@ =~= Seq::<SpanTotals>::empty());
        s
    }

    /// The number of spans with a record.
    pub fn len(&self) -> (n: usize)
        ensures
            n == self@.len(),
    {
        self.records.len()
    }

    /// The record at place `i`.
    pub fn get(&self, i: usize) -> (r: &SpanRecord)
        requires
            i < self@.len(),
        ensures
            r@ == self@[i as int],
    {
        &self.records[i]
    }

    /// Takes down that the span called `name` ran for `elapsed` nanoseconds: the time is
    /// added to the span's total, its runs count one more, and the time is its last. A
    /// span that ran for the first time gets a record behind the others. Totals and
    /// counts stop at the largest number that they can hold.
    pub fn push(&mut self, name: String, elapsed: u128)
        requires
            old(self).wf(),
        ensures
            final(self).wf(),
            final(self)@ == with_run(old(self)@, name@, elapsed),
    {
        let mut i: usize = 0;
        let mut found = false;
        while i < self.records.len() && !found
            invariant
                i <= self.records@.len(),
                *self == *old(self),
                forall|j: int| 0 <= j < i ==> (#[trigger] self@[j]).name != name@,
                found ==> i < self.records@.len() && self@[i as int].name == name@,
            decreases self.records@.len() - i + (if found { 0int } else { 1int }),
        {
            if self.records[i].name == name {
                found = true;
            } else {
                i += 1;
            }
        }
        proof {
            lemma_place_found(self@, name@, i as int);
            lemma_with_run_distinct(self@, name@, elapsed);
        }
        if i < self.records.len() {
            let total = if self.records[i].total > u128::MAX - elapsed {
                u128::MAX
            } else {
                self.records[i].total + elapsed
            };
            let count = if self.records[i].count == u32::MAX {
                u32::MAX
            } else {
                self.records[i].count + 1
            };
            self.records.set(i, SpanRecord { name, total, count, last: elapsed });
        } else {
            self.records.push(SpanRecord { name, total: elapsed, count: 1, last: elapsed });
        }
        assert(self@ =~= with_run(old(self)@, name@, elapsed));
    }

    /// Hands the records to the reporter. Where it makes a report of them, the records
    /// are thrown away and the report is returned; otherwise they are kept.
    pub fn flush(&mut self, reporter: &mut RuntimeReporter, fps: u32, now: u128) -> (report: Option<
        Vec<ReportItem>,
    >)
        requires
            old(self).wf(),
        ensures
            final(self).wf(),
            report is Some == old(reporter).reports(old(self)@, fps, now),
            final(reporter)@ == old(reporter).after_report(old(self)@, fps, now),
            final(self)@ == (if report is Some {
                Seq::<SpanTotals>::empty()
            } else {
                old(self)@
            }),
            report matches Some(items) ==> crate::debug::runtime_reporter::items_view(items@)
                == crate::debug::runtime_reporter::report_of(old(self)@),
    {
        let report = reporter.report(self, fps, now);
        if report.is_some() {
            self.records = Vec::new();
            assert(self@ =~= Seq::<SpanTotals>::empty());
        }
        report
    }
}

} // verus!
