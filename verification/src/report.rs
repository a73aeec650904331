use vstd::prelude::*;
use crate::clock::{in_calendar, local_time_text, CALENDAR_MAX_NS, CALENDAR_MIN_NS, CALENDAR_MIN_SECS};
use crate::polling::{latency_ordered, Metrics};
use crate::taskgroup::{GroupTask, Snapshot, TaskGroup, total_of};
use crate::text::{decimal, push_decimal};

verus! {

pub const LINE_DOUBLE: &'static str = "════════════════════════════════════════════════════════════════════════════";

pub const LINE_DOTTED: &'static str = "················································································";

pub const TITLE: &'static str = "SNAPSHOT";

pub const SPACES: &'static str = "                                      ";

/// `s` followed by a line break.
pub open spec fn line(s: Seq<char>) -> Seq<char> {
    s + seq!['\n']
}

/// Each of `ls` on a line of its own.
pub open spec fn lines_text(ls: Seq<Seq<char>>) -> Seq<char>
    decreases ls.len(),
{
    if ls.len() == 0 {
        Seq::empty()
    } else {
        lines_text(ls.drop_last()) + line(ls.last())
    }
}

/// The banner at the top of a report.
pub open spec fn header_text() -> Seq<char> {
    LINE_DOUBLE@ + seq!['\n'] + SPACES@ + TITLE@ + seq!['\n'] + LINE_DOUBLE@
}

/// Request and latency lines, shown once a task has been polled. A minimum
/// latency that was never set shows as zero.
pub open spec fn metrics_text(m: Metrics) -> Seq<char> {
    if m.total_attempts > 0 {
        line(
            "Requests| Total: "@ + decimal(m.total_attempts as nat) + " Successfull: "@ + decimal(
                m.successful as nat,
            ) + " Errors: "@ + decimal(m.errors as nat),
        ) + line(
            "Latency ms| Current: "@ + decimal(m.current_latency_ms as nat) + " Avg: "@ + decimal(
                m.avg_latency_ms as nat,
            ) + " Min: "@ + decimal(
                if m.min_latency_ms == u64::MAX {
                    0
                } else {
                    m.min_latency_ms as nat
                },
            ) + " Max: "@ + decimal(m.max_latency_ms as nat),
        )
    } else {
        Seq::empty()
    }
}

/// One task: name, target and subject, the lines of its result, its metrics
/// and the time of its last update.
pub open spec fn task_text<R>(t: GroupTask<R>, result: Seq<Seq<char>>, time: Seq<char>) -> Seq<char> {
    line("\nTask name: '"@ + t.meta.name@ + "'"@) + line("Target: "@ + t.meta.target@) + line(
        "Subject: "@ + t.meta.subject@,
    ) + lines_text(result) + metrics_text(t.data.metrics) + line("Last update: "@ + time)
}

/// The tasks of a group in order; task `i` uses `results[i]` and `times[i]`.
pub open spec fn tasks_text<R>(ts: Seq<GroupTask<R>>, results: Seq<Seq<Seq<char>>>, times: Seq<Seq<char>>) -> Seq<char>
    decreases ts.len(),
{
    if ts.len() == 0 {
        Seq::empty()
    } else {
        tasks_text(ts.drop_last(), results, times) + task_text(
            ts.last(),
            results[ts.len() - 1],
            times[ts.len() - 1],
        )
    }
}

/// One group: its name and size, its tasks, and a dotted rule.
pub open spec fn group_text<R>(g: TaskGroup<R>, results: Seq<Seq<Seq<char>>>, times: Seq<Seq<char>>) -> Seq<char> {
    line("Task group name: "@ + g.name_view() + " ("@ + decimal(g.tasks_view().len()) + " tasks)"@)
        + tasks_text(g.tasks_view(), results, times) + line(LINE_DOTTED@)
}

/// The groups in order; group `i` uses `results[i]` and `times[i]`.
pub open spec fn groups_text<R>(
    gs: Seq<TaskGroup<R>>,
    results: Seq<Seq<Seq<Seq<char>>>>,
    times: Seq<Seq<Seq<char>>>,
) -> Seq<char>
    decreases gs.len(),
{
    if gs.len() == 0 {
        Seq::empty()
    } else {
        groups_text(gs.drop_last(), results, times) + group_text(
            gs.last(),
            results[gs.len() - 1],
            times[gs.len() - 1],
        )
    }
}

/// The whole report of a snapshot whose last update reads `last`.
pub open spec fn snapshot_text<R>(
    gs: Seq<TaskGroup<R>>,
    results: Seq<Seq<Seq<Seq<char>>>>,
    last: Seq<char>,
    times: Seq<Seq<Seq<char>>>,
) -> Seq<char> {
    line(header_text()) + line("Last update: "@ + last) + line(
        "Total groups: "@ + decimal(gs.len()) + " Total tasks: "@ + decimal(total_of(gs)) + seq!['\n'],
    ) + groups_text(gs, results, times)
}

/// Each task's time is written as `time_written` says.
pub open spec fn times_written<R>(gs: Seq<TaskGroup<R>>, times: Seq<Seq<Seq<char>>>) -> bool {
    forall|g: int, t: int|
        0 <= g < gs.len() && 0 <= t < gs[g].tasks_view().len() ==> time_written(
            gs[g].tasks_view()[t].data.last_update,
            #[trigger] times[g][t],
        )
}

/// Per group and per task, as many entries as there are groups and tasks.
pub open spec fn fits<R, A, B>(gs: Seq<TaskGroup<R>>, results: Seq<Seq<A>>, times: Seq<Seq<B>>) -> bool {
    &&& results.len() == gs.len()
    &&& times.len() == gs.len()
    &&& forall|g: int|
        0 <= g < gs.len() ==> (#[trigger] results[g]).len() == gs[g].tasks_view().len() && times[g].len()
            == gs[g].tasks_view().len()
}

fn append_line(s: &mut String, text: &str)
    ensures
        final(s)@ == old(s)@ + line(text@),
{
    s.append(text);
    s.append("\n");
    proof {
        reveal_strlit("\n");
    }
}

fn append_lines(s: &mut String, ls: &Vec<String>)
    ensures
        final(s)@ == old(s)@ + lines_text(ls.deep_view()),
{
    let ghost start = s@;
    for i in 0..ls.len()
        invariant
            s@ == start + lines_text(ls.deep_view().take(i as int)),
    {
        proof {
            assert(ls.deep_view().take(i as int + 1).drop_last() =~= ls.deep_view().take(i as int));
        }
        append_line(s, ls[i].as_str());
        proof {
            assert(start + lines_text(ls.deep_view().take(i as int)) + line(ls.deep_view()[i as int]) =~= start
                + lines_text(ls.deep_view().take(i as int + 1)));
        }
    }
    proof {
        assert(ls.deep_view().take(ls.len() as int) =~= ls.deep_view());
    }
}

/// In the latency line of polled metrics with ordered latencies, the number
/// after "Min: " is never above the number after "Max: ": the first is the
/// minimum latency (0 before any success), the second the maximum.
pub proof fn lemma_latency_line_min_not_above_max(m: Metrics)
    requires
        m.total_attempts > 0,
        latency_ordered(m),
    ensures
        exists|pre: Seq<char>, lo: nat, hi: nat|
            {
                &&& metrics_text(m) == pre + " Min: "@ + decimal(lo) + " Max: "@ + decimal(hi) + seq!['\n']
                &&& lo <= hi
                &&& hi == m.max_latency_ms
                &&& lo == if m.min_latency_ms == u64::MAX { 0 } else { m.min_latency_ms as nat }
            },
{
    let lo: nat = if m.min_latency_ms == u64::MAX { 0 } else { m.min_latency_ms as nat };
    let hi: nat = m.max_latency_ms as nat;
    let pre = line(
        "Requests| Total: "@ + decimal(m.total_attempts as nat) + " Successfull: "@ + decimal(m.successful as nat)
            + " Errors: "@ + decimal(m.errors as nat),
    ) + "Latency ms| Current: "@ + decimal(m.current_latency_ms as nat) + " Avg: "@ + decimal(m.avg_latency_ms as nat);
    assert(metrics_text(m) =~= pre + " Min: "@ + decimal(lo) + " Max: "@ + decimal(hi) + seq!['\n']);
}

fn append_metrics(s: &mut String, m: &Metrics)
    ensures
        final(s)@ == old(s)@ + metrics_text(*m),
{
    if m.total_attempts > 0 {
        let ghost start = s@;
        s.append("Requests| Total: ");
        push_decimal(s, m.total_attempts as u128);
        s.append(" Successfull: ");
        push_decimal(s, m.successful as u128);
        s.append(" Errors: ");
        push_decimal(s, m.errors as u128);
        s.append("\n");
        s.append("Latency ms| Current: ");
        push_decimal(s, m.current_latency_ms as u128);
        s.append(" Avg: ");
        push_decimal(s, m.avg_latency_ms as u128);
        s.append(" Min: ");
        let min = if m.min_latency_ms == u64::MAX {
            0
        } else {
            m.min_latency_ms
        };
        push_decimal(s, min as u128);
        s.append(" Max: ");
        push_decimal(s, m.max_latency_ms as u128);
        s.append("\n");
        proof {
            reveal_strlit("\n");
            assert(s@ =~= start + metrics_text(*m));
        }
    }
}

fn append_task<R>(s: &mut String, t: &GroupTask<R>, result: &Vec<String>, time: &str)
    ensures
        final(s)@ == old(s)@ + task_text(*t, result.deep_view(), time@),
{
    let ghost start = s@;
    let mut head = String::from_str("\nTask name: '");
    head.append(t.meta.name.as_str());
    head.append("'");
    append_line(s, head.as_str());
    let mut target = String::from_str("Target: ");
    target.append(t.meta.target.as_str());
    append_line(s, target.as_str());
    let mut subject = String::from_str("Subject: ");
    subject.append(t.meta.subject.as_str());
    append_line(s, subject.as_str());
    append_lines(s, result);
    append_metrics(s, &t.data.metrics);
    let mut last = String::from_str("Last update: ");
    last.append(time);
    append_line(s, last.as_str());
    proof {
        assert(s@ =~= start + task_text(*t, result.deep_view(), time@));
    }
}

fn append_group<R>(s: &mut String, g: &TaskGroup<R>, results: &Vec<Vec<String>>, times: &Vec<String>)
    requires
        results@.len() == g.tasks_view().len(),
        times@.len() == g.tasks_view().len(),
    ensures
        final(s)@ == old(s)@ + group_text(*g, results.deep_view(), times.deep_view()),
{
    let ghost start = s@;
    let tasks = g.tasks();
    let mut head = String::from_str("Task group name: ");
    head.append(g.name().as_str());
    head.append(" (");
    push_decimal(&mut head, tasks.len() as u128);
    head.append(" tasks)");
    append_line(s, head.as_str());
    let ghost after_head = s@;
    for i in 0..tasks.len()
        invariant
            tasks@ == g.tasks_view(),
            results@.len() == g.tasks_view().len(),
            times@.len() == g.tasks_view().len(),
            s@ == after_head + tasks_text(g.tasks_view().take(i as int), results.deep_view(), times.deep_view()),
    {
        proof {
            assert(g.tasks_view().take(i as int + 1).drop_last() =~= g.tasks_view().take(i as int));
        }
        append_task(s, &tasks[i], &results[i], times[i].as_str());
        proof {
            let t = g.tasks_view().take(i as int + 1);
            assert(t.last() == g.tasks_view()[i as int]);
            assert(t.len() - 1 == i);
        }
    }
    proof {
        assert(g.tasks_view().take(tasks@.len() as int) =~= g.tasks_view());
    }
    append_line(s, LINE_DOTTED);
    proof {
        assert(s@ =~= start + group_text(*g, results.deep_view(), times.deep_view()));
    }
}

impl<R> Snapshot<R> {
    /// The report text: a banner, the last update (as `last_update_text`), the
    /// group and task counts, then every group with its tasks. Task `t` of
    /// group `g` shows the lines `results[g][t]` for its result and
    /// `times[g][t]` for its last update.
    pub fn render(&self, results: &Vec<Vec<Vec<String>>>, last_update_text: &str, times: &Vec<Vec<String>>) -> (s: String)
        requires
            total_of(self.groups_view()) <= usize::MAX,
            fits(self.groups_view(), results.deep_view(), times.deep_view()),
        ensures
            s@ == snapshot_text(self.groups_view(), results.deep_view(), last_update_text@, times.deep_view()),
    {
        let groups = self.groups();
        let mut s = String::from_str(LINE_DOUBLE);
        s.append("\n");
        s.append(SPACES);
        s.append(TITLE);
        s.append("\n");
        s.append(LINE_DOUBLE);
        s.append("\n");
        let mut last = String::from_str("Last update: ");
        last.append(last_update_text);
        append_line(&mut s, last.as_str());
        let mut counts = String::from_str("Total groups: ");
        push_decimal(&mut counts, groups.len() as u128);
        counts.append(" Total tasks: ");
        let total = self.total_tasks();
        push_decimal(&mut counts, total as u128);
        counts.append("\n");
        append_line(&mut s, counts.as_str());
        proof {
            reveal_strlit("\n");
            assert(s@ =~= line(header_text()) + line("Last update: "@ + last_update_text@) + line(
                "Total groups: "@ + decimal(self.groups_view().len()) + " Total tasks: "@ + decimal(
                    total_of(self.groups_view()),
                ) + seq!['\n'],
            ));
        }
        let ghost head = s@;
        for i in 0..groups.len()
            invariant
                groups@ == self.groups_view(),
                fits(self.groups_view(), results.deep_view(), times.deep_view()),
                s@ == head + groups_text(self.groups_view().take(i as int), results.deep_view(), times.deep_view()),
        {
            proof {
                assert(self.groups_view().take(i as int + 1).drop_last() =~= self.groups_view().take(i as int));
                assert(results.deep_view()[i as int].len() == self.groups_view()[i as int].tasks_view().len());
            }
            append_group(&mut s, &groups[i], &results[i], &times[i]);
            proof {
                let t = self.groups_view().take(i as int + 1);
                assert(t.last() == self.groups_view()[i as int]);
            }
        }
        proof {
            assert(self.groups_view().take(groups@.len() as int) =~= self.groups_view());
        }
        s
    }

    /// The report text with the times written in local time (a time outside
    /// the calendar's range is written as its nanoseconds). Task `t` of group
    /// `g` shows the lines `results[g][t]` for its result.
    pub fn to_text(&self, results: &Vec<Vec<Vec<String>>>) -> (s: String)
        requires
            total_of(self.groups_view()) <= usize::MAX,
            results@.len() == self.groups_view().len(),
            forall|g: int|
                0 <= g < self.groups_view().len() ==> (#[trigger] results@[g])@.len()
                    == self.groups_view()[g].tasks_view().len(),
        ensures
            exists|last: Seq<char>, times: Seq<Seq<Seq<char>>>|
                {
                    &&& fits(self.groups_view(), results.deep_view(), times)
                    &&& time_written(self.last_update_view(), last)
                    &&& times_written(self.groups_view(), times)
                    &&& s@ == snapshot_text(self.groups_view(), results.deep_view(), last, times)
                },
    {
        let groups = self.groups();
        let mut times: Vec<Vec<String>> = Vec::new();
        for g in 0..groups.len()
            invariant
                groups@ == self.groups_view(),
                times@.len() == g,
                forall|j: int| 0 <= j < g ==> (#[trigger] times@[j])@.len() == self.groups_view()[j].tasks_view().len(),
                forall|j: int, t: int|
                    0 <= j < g && 0 <= t < self.groups_view()[j].tasks_view().len() ==> time_written(
                        self.groups_view()[j].tasks_view()[t].data.last_update,
                        #[trigger] times@[j]@[t]@,
                    ),
        {
            let tasks = groups[g].tasks();
            let mut row: Vec<String> = Vec::new();
            for t in 0..tasks.len()
                invariant
                    tasks@ == self.groups_view()[g as int].tasks_view(),
                    row@.len() == t,
                    forall|u: int| 0 <= u < t ==> time_written(tasks@[u].data.last_update, #[trigger] row@[u]@),
            {
                row.push(time_text(tasks[t].data.last_update));
            }
            times.push(row);
        }
        let last = time_text(self.last_update());
        proof {
            assert(fits(self.groups_view(), results.deep_view(), times.deep_view()));
            assert(times_written(self.groups_view(), times.deep_view()));
        }
        self.render(results, last.as_str(), &times)
    }
}

/// Decimal notation of `n`, with a minus sign when negative.
pub open spec fn signed_decimal(n: int) -> Seq<char> {
    if n < 0 {
        seq!['-'] + decimal((-n) as nat)
    } else {
        decimal(n as nat)
    }
}

/// `t` is how the time `ns` (nanoseconds since the Unix epoch) is written:
/// outside the calendar's range, its decimal nanoseconds; inside it, the
/// local-time text, which depends on the machine's time zone and is not stated.
pub open spec fn time_written(ns: i128, t: Seq<char>) -> bool {
    !in_calendar(ns) ==> t == signed_decimal(ns as int)
}

/// Local-time text of `ns`, or its decimal nanoseconds outside the calendar's range.
fn time_text(ns: i128) -> (s: String)
    ensures
        time_written(ns, s@),
{
    if CALENDAR_MIN_NS <= ns && ns <= CALENDAR_MAX_NS {
        let off = (ns - CALENDAR_MIN_NS) as u128;
        let whole = off / 1_000_000_000;
        let secs = whole as i64 + CALENDAR_MIN_SECS;
        let nanos = (off % 1_000_000_000) as u32;
        match local_time_text(secs, nanos) {
            Some(t) => return t,
            None => {},
        }
    }
    let mut s = String::new();
    if ns < 0 {
        s.append("-");
        let n: u128 = if ns == i128::MIN { 170141183460469231731687303715884105728u128 } else { (-ns) as u128 };
        assert(n as int == -(ns as int));
        push_decimal(&mut s, n);
        proof {
            reveal_strlit("-");
            assert(s@ =~= signed_decimal(ns as int));
        }
    } else {
        push_decimal(&mut s, ns as u128);
    }
    s
}

} // verus!
