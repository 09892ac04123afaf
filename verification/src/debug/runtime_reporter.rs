use vstd::prelude::*;
use crate::debug::runtime_storage::RuntimeStorage;
use crate::debug::runtime_storage::SpanTotals;

verus! {

/// The time that passes at least between two reports, in nanoseconds.
pub const REPORT_COOLDOWN: u128 = 10_000_000_000;

/// The frame rate from which on no report is made.
pub const TARGET_FPS: u32 = 60;

/// One line of a report: a span, the time of its last run and the mean time of its
/// runs.
pub struct ReportItem {
    pub name: String,
    pub last: u128,
    pub avg: u128,
}

/// A line of a report as plain values.
pub struct ReportLine {
    pub name: Seq<char>,
    pub last: u128,
    pub avg: u128,
}

impl View for ReportItem {
    type V = ReportLine;

    open spec fn view(&self) -> ReportLine {
        ReportLine { name: self.name@, last: self.last, avg: self.avg }
    }
}

/// The lines of a report as plain values.
pub open spec fn items_view(items: Seq<ReportItem>) -> Seq<ReportLine> {
    Seq::new(items.len(), |i: int| items[i]@)
}

/// Decides when the measurements are worth a report, and remembers when the last one
/// was made.
pub struct RuntimeReporter {
    last_report: Option<u128>,
}

/// The line for one record: its mean is the total divided by the number of runs, and
/// nothing where no run was counted.
pub open spec fn line_of(r: SpanTotals) -> ReportLine {
    ReportLine {
        name: r.name,
        last: r.last,
        avg: if r.count > 0 {
            r.total / (r.count as u128)
        } else {
            0
        },
    }
}

/// `lines` with `line` put behind the last line whose last run took at least as long.
pub open spec fn insert_line(lines: Seq<ReportLine>, line: ReportLine) -> Seq<ReportLine>
    decreases lines.len(),
{
    if lines.len() == 0 {
        seq![line]
    } else if lines.last().last >= line.last {
        lines.push(line)
    } else {
        insert_line(lines.drop_last(), line).push(lines.last())
    }
}

/// The lines for the first `n` records, the longest last run first; spans whose last
/// runs took equally long keep the order of their records.
pub open spec fn report_below(records: Seq<SpanTotals>, n: nat) -> Seq<ReportLine>
    decreases n,
{
    if n == 0 {
        Seq::empty()
    } else {
        insert_line(report_below(records, (n - 1) as nat), line_of(records[n - 1]))
    }
}

/// The report of all the records.
pub open spec fn report_of(records: Seq<SpanTotals>) -> Seq<ReportLine> {
    report_below(records, records.len())
}

/// The lines are ordered by the time of the last run, the longest first.
pub open spec fn longest_first(lines: Seq<ReportLine>) -> bool {
    forall|i: int, j: int| 0 <= i < j < lines.len() ==> lines[i].last >= lines[j].last
}

/// Putting `line` at index `at` is what `insert_line` does, where every line from `at`
/// on is shorter than `line` and the one before is not.
pub proof fn lemma_insert_line_at(lines: Seq<ReportLine>, line: ReportLine, at: int)
    requires
        0 <= at <= lines.len(),
        forall|k: int| at <= k < lines.len() ==> lines[k].last < line.last,
        at > 0 ==> lines[at - 1].last >= line.last,
    ensures
        insert_line(lines, line) == lines.insert(at, line),
    decreases lines.len(),
{
    if lines.len() == 0 {
        assert(lines.insert(at, line) =~= seq![line]);
    } else if at == lines.len() {
        assert(lines.insert(at, line) =~= lines.push(line));
    } else {
        lemma_insert_line_at(lines.drop_last(), line, at);
        assert(lines.insert(at, line) =~= lines.drop_last().insert(at, line).push(lines.last()));
    }
}

/// Inserting a line keeps the lines ordered and adds one line.
pub proof fn lemma_insert_line(lines: Seq<ReportLine>, line: ReportLine)
    requires
        longest_first(lines),
    ensures
        longest_first(insert_line(lines, line)),
        insert_line(lines, line).len() == lines.len() + 1,
        insert_line(lines, line).to_multiset() == lines.to_multiset().insert(line),
    decreases lines.len(),
{
    broadcast use vstd::seq_lib::group_to_multiset_ensures;

    if lines.len() == 0 {
        assert(seq![line] =~= lines.push(line));
    } else if lines.last().last >= line.last {
        let r = lines.push(line);
        assert forall|i: int, j: int| 0 <= i < j < r.len() implies r[i].last >= r[j].last by {
            if j == lines.len() && i < lines.len() - 1 {
                assert(lines[i].last >= lines[lines.len() - 1].last);
            }
        }
    } else {
        let head = lines.drop_last();
        assert(longest_first(head)) by {
            assert forall|i: int, j: int| 0 <= i < j < head.len() implies head[i].last >= head[j].last by {
                assert(lines[i].last >= lines[j].last);
            }
        }
        lemma_insert_line(head, line);
        let inner = insert_line(head, line);
        let r = inner.push(lines.last());
        assert(lines =~= head.push(lines.last()));
        assert forall|i: int, j: int| 0 <= i < j < r.len() implies r[i].last >= r[j].last by {
            if j == inner.len() {
                assert(inner.to_multiset().count(inner[i]) > 0);
                if inner[i] != line {
                    assert(head.to_multiset().count(inner[i]) > 0);
                    let k = choose|k: int| 0 <= k < head.len() && head[k] == inner[i];
                    assert(lines[k].last >= lines[lines.len() - 1].last);
                }
            }
        }
        assert(r.to_multiset() =~= lines.to_multiset().insert(line));
    }
}

/// A report has one line for each record and is ordered by the time of the last run,
/// the longest first.
pub proof fn lemma_report_below(records: Seq<SpanTotals>, n: nat)
    requires
        n <= records.len(),
    ensures
        report_below(records, n).len() == n,
        longest_first(report_below(records, n)),
    decreases n,
{
    if n > 0 {
        lemma_report_below(records, (n - 1) as nat);
        lemma_insert_line(report_below(records, (n - 1) as nat), line_of(records[n - 1]));
    }
}

impl RuntimeReporter {
    /// The time of the last report, if there was one.
    pub closed spec fn view(&self) -> Option<u128> {
        self.last_report
    }

    /// Whether a report is due: there are records, the frame rate is below the target,
    /// and the last report, if any, is at least the cooldown ago.
    pub open spec fn reports(self, records: Seq<SpanTotals>, fps: u32, now: u128) -> bool {
        &&& records.len() > 0
        &&& fps < TARGET_FPS
        &&& match self@ {
            Some(t) => now >= t && now - t >= REPORT_COOLDOWN,
            None => true,
        }
    }

    /// The time of the last report after the reporter was asked at time `now`.
    pub open spec fn after_report(self, records: Seq<SpanTotals>, fps: u32, now: u128) -> Option<
        u128,
    > {
        if self.reports(records, fps, now) {
            Some(now)
        } else {
            self@
        }
    }

    /// A reporter that has made no report yet.
    pub fn new() -> (r: RuntimeReporter)
        ensures
            r@ == None::<u128>,
    {
        RuntimeReporter { last_report: None }
    }

    /// Makes a report of the records of `storage` where one is due, and remembers its
    /// time. The report has one line for each span, the span with the longest last run
    /// first.
    pub fn report(&mut self, storage: &RuntimeStorage, fps: u32, now: u128) -> (report: Option<
        Vec<ReportItem>,
    >)
        ensures
            report is Some == old(self).reports(storage@, fps, now),
            final(self)@ == old(self).after_report(storage@, fps, now),
            report matches Some(items) ==> items_view(items@) == report_of(storage@),
    {
        if storage.len() == 0 {
            return None;
        }
        if fps >= TARGET_FPS {
            return None;
        }
        if let Some(t) = self.last_report {
            if now < t || now - t < REPORT_COOLDOWN {
                return None;
            }
        }
        self.last_report = Some(now);
        let mut items: Vec<ReportItem> = Vec::new();
        let mut i: usize = 0;
        while i < storage.len()
            invariant
                i <= storage@.len(),
                items_view(items@) == report_below(storage@, i as nat),
            decreases storage@.len() - i,
        {
            let record = storage.get(i);
            let avg = if record.count > 0 {
                record.total / (record.count as u128)
            } else {
                0
            };
            let item = ReportItem { name: record.name.clone(), last: record.last, avg };
            let mut at: usize = items.len();
            while at > 0 && items[at - 1].last < item.last
                invariant
                    at <= items@.len(),
                    forall|k: int| at <= k < items@.len() ==> items_view(items@)[k].last < item.last,
                decreases at,
            {
                at -= 1;
            }
            proof {
                assert(item@ == line_of(storage@[i as int]));
                if at > 0 {
                    assert(items_view(items@)[at - 1].last >= item.last);
                }
                lemma_insert_line_at(items_view(items@), item@, at as int);
            }
            let ghost before = items_view(items@);
            items.insert(at, item);
            assert(items_view(items@) =~= before.insert(at as int, item@));
            i += 1;
        }
        Some(items)
    }
}

} // verus!
