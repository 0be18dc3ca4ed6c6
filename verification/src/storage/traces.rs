//! Assistant traces: stored trace rows read back into entries, and the activity log of
//! the first schema folded into one trace entry per tool call.
use vstd::prelude::*;

use super::database::{failure, StorageError, StorageErrorKind};
use super::records::{trace_kind_of, trace_status_of, OUT_OF_RANGE};
use crate::domain::{AssistantTraceKind, AssistantTraceStatus};
use crate::text::{append_str, ascii_lowercase, chars_of, contains_chars, contains_seq, opt_view, str_is, to_ascii_lowercase};

verus! {

/// One entry of the trace shown under an assistant message.
#[derive(Clone, Debug, PartialEq, Eq)]
pub struct AssistantTraceEntry {
    pub key: String,
    pub sequence: u64,
    pub kind: AssistantTraceKind,
    pub status: AssistantTraceStatus,
    pub title: String,
    pub tool_name: Option<String>,
    pub input: String,
    pub output: String,
    pub started_at: Option<i64>,
    pub finished_at: Option<i64>,
}

/// The trace of an assistant message and how long it thought, where that is known.
#[derive(Clone, Debug, PartialEq, Eq)]
pub struct AssistantTrace {
    pub entries: Vec<AssistantTraceEntry>,
    pub thinking_duration_ms: Option<u64>,
}

pub struct EntryView {
    pub key: Seq<char>,
    pub sequence: u64,
    pub kind: AssistantTraceKind,
    pub status: AssistantTraceStatus,
    pub title: Seq<char>,
    pub tool_name: Option<Seq<char>>,
    pub input: Seq<char>,
    pub output: Seq<char>,
    pub started_at: Option<i64>,
    pub finished_at: Option<i64>,
}

pub open spec fn entry_view(e: AssistantTraceEntry) -> EntryView {
    EntryView {
        key: e.key@,
        sequence: e.sequence,
        kind: e.kind,
        status: e.status,
        title: e.title@,
        tool_name: opt_view(e.tool_name),
        input: e.input@,
        output: e.output@,
        started_at: e.started_at,
        finished_at: e.finished_at,
    }
}

pub open spec fn entries_view(entries: Seq<AssistantTraceEntry>) -> Seq<EntryView> {
    entries.map_values(|e: AssistantTraceEntry| entry_view(e))
}

/// A stored trace row as the database gives it back.
#[derive(Clone, Debug, PartialEq, Eq)]
pub struct TraceRow {
    pub key: String,
    pub sequence: i64,
    pub kind: String,
    pub status: String,
    pub title: String,
    pub tool_name: Option<String>,
    pub input: String,
    pub output: String,
    pub started_at: Option<i64>,
    pub finished_at: Option<i64>,
}

/// The entry of one stored row: its kind, then its state, must be known words and its
/// sequence must not be negative; the first failure is invalid data.
pub open spec fn row_entry(row: TraceRow) -> Result<EntryView, Seq<char>> {
    match (trace_kind_of(row.kind@), trace_status_of(row.status@)) {
        (None, _) => Err("unknown assistant trace kind"@),
        (Some(_), None) => Err("unknown assistant trace status"@),
        (Some(kind), Some(status)) => if row.sequence < 0 {
            Err(OUT_OF_RANGE@)
        } else {
            Ok(
                EntryView {
                    key: row.key@,
                    sequence: row.sequence as u64,
                    kind,
                    status,
                    title: row.title@,
                    tool_name: opt_view(row.tool_name),
                    input: row.input@,
                    output: row.output@,
                    started_at: row.started_at,
                    finished_at: row.finished_at,
                },
            )
        },
    }
}

/// The entries of stored rows in order, or the failure of the first bad row.
pub open spec fn rows_entries(rows: Seq<TraceRow>) -> Result<Seq<EntryView>, Seq<char>>
    decreases rows.len(),
{
    if rows.len() == 0 {
        Ok(Seq::empty())
    } else {
        match rows_entries(rows.drop_last()) {
            Err(e) => Err(e),
            Ok(entries) => match row_entry(rows.last()) {
                Err(e) => Err(e),
                Ok(entry) => Ok(entries.push(entry)),
            },
        }
    }
}

fn clone_opt(o: &Option<String>) -> (c: Option<String>)
    ensures
        opt_view(c) == opt_view(*o),
{
    match o {
        Some(s) => Some(s.clone()),
        None => None,
    }
}

fn invalid_data(message: &str) -> (e: StorageError)
    ensures
        e.kind == StorageErrorKind::InvalidData,
        e.message@ == message@,
{
    failure(StorageErrorKind::InvalidData, message)
}

/// Reads one stored trace row back into an entry.
pub fn trace_entry(row: &TraceRow) -> (r: Result<AssistantTraceEntry, StorageError>)
    ensures
        match (r, row_entry(*row)) {
            (Ok(e), Ok(v)) => entry_view(e) == v,
            (Err(e), Err(m)) => e.kind == StorageErrorKind::InvalidData && e.message@ == m,
            _ => false,
        },
{
    let kind = if str_is(row.kind.as_str(), "reasoning_summary") {
        AssistantTraceKind::ReasoningSummary
    } else if str_is(row.kind.as_str(), "tool") {
        AssistantTraceKind::Tool
    } else {
        return Err(invalid_data("unknown assistant trace kind"));
    };
    let s = row.status.as_str();
    let status = if str_is(s, "streaming") {
        AssistantTraceStatus::Streaming
    } else if str_is(s, "requested") {
        AssistantTraceStatus::Requested
    } else if str_is(s, "running") {
        AssistantTraceStatus::Running
    } else if str_is(s, "awaiting_approval") {
        AssistantTraceStatus::AwaitingApproval
    } else if str_is(s, "completed") {
        AssistantTraceStatus::Completed
    } else if str_is(s, "rejected") {
        AssistantTraceStatus::Rejected
    } else if str_is(s, "failed") {
        AssistantTraceStatus::Failed
    } else if str_is(s, "stopped") {
        AssistantTraceStatus::Stopped
    } else {
        return Err(invalid_data("unknown assistant trace status"));
    };
    if row.sequence < 0 {
        return Err(invalid_data(OUT_OF_RANGE));
    }
    Ok(AssistantTraceEntry {
        key: row.key.clone(),
        sequence: row.sequence as u64,
        kind,
        status,
        title: row.title.clone(),
        tool_name: clone_opt(&row.tool_name),
        input: row.input.clone(),
        output: row.output.clone(),
        started_at: row.started_at,
        finished_at: row.finished_at,
    })
}

/// Reads the stored rows of a message's trace, in order, and its thinking time: the
/// first bad row fails the whole trace, then a negative thinking time does.
pub fn assistant_trace(rows: &Vec<TraceRow>, thinking_duration_ms: Option<i64>) -> (r: Result<AssistantTrace, StorageError>)
    ensures
        match rows_entries(rows@) {
            Err(m) => r matches Err(e) && e.kind == StorageErrorKind::InvalidData && e.message@ == m,
            Ok(v) => match thinking_duration_ms {
                Some(ms) if ms < 0 => r matches Err(e) && e.kind == StorageErrorKind::InvalidData
                    && e.message@ == OUT_OF_RANGE@,
                _ => r matches Ok(t) && entries_view(t.entries@) == v && t.thinking_duration_ms == (
                match thinking_duration_ms {
                    Some(ms) => Some(ms as u64),
                    None => None::<u64>,
                }),
            },
        },
{
    let mut entries: Vec<AssistantTraceEntry> = Vec::new();
    let mut i: usize = 0;
    assert(rows@.take(0) =~= Seq::<TraceRow>::empty());
    assert(entries_view(entries@) =~= Seq::<EntryView>::empty());
    while i < rows.len()
        invariant
            i <= rows@.len(),
            rows_entries(rows@.take(i as int)) == Ok::<Seq<EntryView>, Seq<char>>(entries_view(entries@)),
        decreases rows.len() - i,
    {
        proof {
            assert(rows@.take(i + 1).drop_last() =~= rows@.take(i as int));
            assert(rows@.take(i + 1).last() == rows@[i as int]);
        }
        match trace_entry(&rows[i]) {
            Err(e) => {
                proof {
                    lemma_first_failure_stays(rows@, i as int + 1);
                }
                return Err(e);
            },
            Ok(entry) => {
                let ghost before = entries@;
                entries.push(entry);
                assert(entries_view(entries@) =~= entries_view(before).push(entry_view(entry)));
            },
        }
        i += 1;
    }
    assert(rows@.take(rows@.len() as int) =~= rows@);
    let thinking = match thinking_duration_ms {
        Some(ms) => {
            if ms < 0 {
                return Err(invalid_data(OUT_OF_RANGE));
            }
            Some(ms as u64)
        },
        None => None,
    };
    Ok(AssistantTrace { entries, thinking_duration_ms: thinking })
}

/// A failure among the first `n` rows is the failure of all of them.
proof fn lemma_first_failure_stays(rows: Seq<TraceRow>, n: int)
    requires
        0 <= n <= rows.len(),
        rows_entries(rows.take(n)) is Err,
    ensures
        rows_entries(rows) == rows_entries(rows.take(n)),
    decreases rows.len() - n,
{
    if n < rows.len() {
        assert(rows.take(n + 1).drop_last() =~= rows.take(n));
        lemma_first_failure_stays(rows, n + 1);
    } else {
        assert(rows.take(n) =~= rows);
    }
}

// ----- the activity log of the first schema -----

/// One row of the first schema's activity log: the assistant message of its run, the
/// tool call it belongs to, and what it recorded.
#[derive(Clone, Debug, PartialEq, Eq)]
pub struct LegacyActivity {
    pub message_id: i64,
    pub call_id: String,
    pub tool_name: String,
    pub kind: String,
    pub status: String,
    pub summary: String,
    pub detail: String,
    pub created_at: i64,
}

/// A tool call gathered from the activity log.
#[derive(Clone, Debug, PartialEq, Eq)]
pub struct LegacyTrace {
    pub call_id: String,
    pub tool_name: String,
    pub title: String,
    pub input: String,
    pub output: String,
    pub status: AssistantTraceStatus,
    pub started_at: i64,
    pub finished_at: Option<i64>,
}

pub struct LegacyView {
    pub call_id: Seq<char>,
    pub tool_name: Seq<char>,
    pub title: Seq<char>,
    pub input: Seq<char>,
    pub output: Seq<char>,
    pub status: AssistantTraceStatus,
    pub started_at: i64,
    pub finished_at: Option<i64>,
}

pub open spec fn legacy_view(t: LegacyTrace) -> LegacyView {
    LegacyView {
        call_id: t.call_id@,
        tool_name: t.tool_name@,
        title: t.title@,
        input: t.input@,
        output: t.output@,
        status: t.status,
        started_at: t.started_at,
        finished_at: t.finished_at,
    }
}

pub open spec fn legacy_views(traces: Seq<LegacyTrace>) -> Seq<LegacyView> {
    traces.map_values(|t: LegacyTrace| legacy_view(t))
}

/// A call seen for the first time: requested, titled by the row's summary, started when
/// the row was written.
pub open spec fn opened(row: LegacyActivity) -> LegacyView {
    LegacyView {
        call_id: row.call_id@,
        tool_name: row.tool_name@,
        title: row.summary@,
        input: Seq::empty(),
        output: Seq::empty(),
        status: AssistantTraceStatus::Requested,
        started_at: row.created_at,
        finished_at: None,
    }
}

/// The state of a call whose result was recorded: a failure that mentions a rejection
/// (in any letter case) was rejected, another failure failed, anything else completed.
pub open spec fn result_status(status: Seq<char>, output: Seq<char>) -> AssistantTraceStatus {
    if status == "failed"@ && contains_seq(ascii_lowercase(output), "reject"@) {
        AssistantTraceStatus::Rejected
    } else if status == "failed"@ {
        AssistantTraceStatus::Failed
    } else {
        AssistantTraceStatus::Completed
    }
}

/// What one row does to its call: a call row sets the input and title; an approval
/// request awaits approval, sets the title, and sets the input where there was none; a
/// result sets the output and the final state and finishes the call; other rows change
/// nothing.
pub open spec fn activity_step(t: LegacyView, row: LegacyActivity) -> LegacyView {
    if row.kind@ == "tool-call"@ {
        LegacyView { input: row.detail@, title: row.summary@, ..t }
    } else if row.kind@ == "approval-requested"@ {
        LegacyView {
            status: AssistantTraceStatus::AwaitingApproval,
            input: if t.input.len() == 0 { row.detail@ } else { t.input },
            title: row.summary@,
            ..t
        }
    } else if row.kind@ == "tool-result"@ {
        LegacyView {
            output: row.detail@,
            status: result_status(row.status@, row.detail@),
            finished_at: Some(row.created_at),
            ..t
        }
    } else {
        t
    }
}

/// The position of the first call with the id, or -1.
pub open spec fn first_call(traces: Seq<LegacyView>, call_id: Seq<char>) -> int
    decreases traces.len(),
{
    if traces.len() == 0 {
        -1
    } else {
        let k = first_call(traces.drop_last(), call_id);
        if k >= 0 {
            k
        } else if traces.last().call_id == call_id {
            traces.len() - 1
        } else {
            -1
        }
    }
}

/// A message's calls after one more row: the row's call is updated, or opened at the end.
pub open spec fn trace_step(traces: Seq<LegacyView>, row: LegacyActivity) -> Seq<LegacyView> {
    let k = first_call(traces, row.call_id@);
    if k >= 0 {
        traces.update(k, activity_step(traces[k], row))
    } else {
        traces.push(activity_step(opened(row), row))
    }
}

/// The calls of every assistant message after reading the rows in order.
pub open spec fn legacy_spec(rows: Seq<LegacyActivity>) -> Map<i64, Seq<LegacyView>>
    decreases rows.len(),
{
    if rows.len() == 0 {
        Map::empty()
    } else {
        let groups = legacy_spec(rows.drop_last());
        let row = rows.last();
        let before = if groups.contains_key(row.message_id) { groups[row.message_id] } else { Seq::empty() };
        groups.insert(row.message_id, trace_step(before, row))
    }
}

/// The groups hold exactly the map's calls, one group per message, by ascending id.
pub open spec fn grouped_as(groups: Seq<(i64, Vec<LegacyTrace>)>, map: Map<i64, Seq<LegacyView>>) -> bool {
    &&& forall|i: int, j: int| 0 <= i < j < groups.len() ==> #[trigger] groups[i].0 < #[trigger] groups[j].0
    &&& forall|i: int| 0 <= i < groups.len() ==> #[trigger] map.contains_key(groups[i].0)
        && legacy_views(groups[i].1@) == map[groups[i].0]
    &&& forall|k: i64| #[trigger] map.contains_key(k) ==> exists|i: int| 0 <= i < groups.len() && groups[i].0 == k
}

proof fn lemma_first_call(traces: Seq<LegacyView>, call_id: Seq<char>, j: int)
    requires
        0 <= j <= traces.len(),
        forall|i: int| 0 <= i < j ==> traces[i].call_id != call_id,
    ensures
        j < traces.len() && traces[j].call_id == call_id ==> first_call(traces, call_id) == j,
        j == traces.len() ==> first_call(traces, call_id) == -1,
    decreases traces.len(),
{
    if traces.len() > 0 {
        let m = if j < traces.len() { j } else { traces.len() - 1 };
        let rest = traces.drop_last();
        assert forall|i: int| 0 <= i < m implies rest[i].call_id != call_id by {
            assert(rest[i] == traces[i]);
        }
        lemma_first_call(rest, call_id, m);
        if j < traces.len() - 1 {
            assert(rest[j] == traces[j]);
        }
    }
}

fn open_trace(row: &LegacyActivity) -> (t: LegacyTrace)
    ensures
        legacy_view(t) == opened(*row),
{
    LegacyTrace {
        call_id: row.call_id.clone(),
        tool_name: row.tool_name.clone(),
        title: row.summary.clone(),
        input: String::new(),
        output: String::new(),
        status: AssistantTraceStatus::Requested,
        started_at: row.created_at,
        finished_at: None,
    }
}

fn result_state(status: &str, output: &str) -> (s: AssistantTraceStatus)
    ensures
        s == result_status(status@, output@),
{
    proof {
        reveal_strlit("reject");
    }
    if str_is(status, "failed") {
        let lower = to_ascii_lowercase(output);
        let needle = chars_of("reject");
        if contains_chars(&lower, &needle) {
            AssistantTraceStatus::Rejected
        } else {
            AssistantTraceStatus::Failed
        }
    } else {
        AssistantTraceStatus::Completed
    }
}

fn apply_activity(t: LegacyTrace, row: &LegacyActivity) -> (u: LegacyTrace)
    ensures
        legacy_view(u) == activity_step(legacy_view(t), *row),
{
    let kind = row.kind.as_str();
    if str_is(kind, "tool-call") {
        LegacyTrace { input: row.detail.clone(), title: row.summary.clone(), ..t }
    } else if str_is(kind, "approval-requested") {
        proof {
            reveal_strlit("");
        }
        let input = if str_is(t.input.as_str(), "") {
            row.detail.clone()
        } else {
            assert(t.input@.len() != 0) by {
                if t.input@.len() == 0 {
                    assert(t.input@ =~= ""@);
                }
            }
            t.input
        };
        LegacyTrace {
            status: AssistantTraceStatus::AwaitingApproval,
            input,
            title: row.summary.clone(),
            ..t
        }
    } else if str_is(kind, "tool-result") {
        LegacyTrace {
            output: row.detail.clone(),
            status: result_state(row.status.as_str(), row.detail.as_str()),
            finished_at: Some(row.created_at),
            ..t
        }
    } else {
        t
    }
}

fn record_activity(traces: Vec<LegacyTrace>, row: &LegacyActivity) -> (out: Vec<LegacyTrace>)
    ensures
        legacy_views(out@) == trace_step(legacy_views(traces@), *row),
{
    let ghost views = legacy_views(traces@);
    let mut traces = traces;
    let mut k: usize = 0;
    let mut found = false;
    while k < traces.len() && !found
        invariant
            k <= traces@.len(),
            views == legacy_views(traces@),
            found ==> k < traces@.len() && views[k as int].call_id == row.call_id@,
            forall|i: int| 0 <= i < k ==> views[i].call_id != row.call_id@,
        decreases traces.len() - k + (if found { 0int } else { 1int }),
    {
        assert(views[k as int] == legacy_view(traces@[k as int]));
        if str_is(traces[k].call_id.as_str(), row.call_id.as_str()) {
            found = true;
        } else {
            k += 1;
        }
    }
    proof {
        lemma_first_call(views, row.call_id@, k as int);
    }
    if found {
        let t = traces.remove(k);
        assert(legacy_view(t) == views[k as int]);
        let u = apply_activity(t, row);
        traces.insert(k, u);
        assert(legacy_views(traces@) =~= views.update(k as int, activity_step(views[k as int], *row)));
    } else {
        let t = open_trace(row);
        let u = apply_activity(t, row);
        traces.push(u);
        assert(legacy_views(traces@) =~= views.push(activity_step(opened(*row), *row)));
    }
    traces
}

/// Folds the first schema's activity log, read in order, into the calls of each
/// assistant message, one group per message by ascending id: each call opens at its
/// first row and every row updates its call.
pub fn legacy_traces(rows: &Vec<LegacyActivity>) -> (groups: Vec<(i64, Vec<LegacyTrace>)>)
    ensures
        grouped_as(groups@, legacy_spec(rows@)),
{
    let mut groups: Vec<(i64, Vec<LegacyTrace>)> = Vec::new();
    let mut n: usize = 0;
    while n < rows.len()
        invariant
            n <= rows@.len(),
            grouped_as(groups@, legacy_spec(rows@.take(n as int))),
        decreases rows.len() - n,
    {
        let row = &rows[n];
        let m = row.message_id;
        let ghost before = groups@;
        let ghost map = legacy_spec(rows@.take(n as int));
        proof {
            assert(rows@.take(n + 1).drop_last() =~= rows@.take(n as int));
            assert(rows@.take(n + 1).last() == rows@[n as int]);
        }
        let mut p: usize = 0;
        while p < groups.len() && groups[p].0 < m
            invariant
                p <= groups@.len(),
                groups@ == before,
                forall|i: int| 0 <= i < p ==> groups@[i].0 < m,
            decreases groups.len() - p,
        {
            p += 1;
        }
        if p < groups.len() && groups[p].0 == m {
            let (key, traces) = groups.remove(p);
            assert(key == m && traces == before[p as int].1);
            let updated = record_activity(traces, row);
            groups.insert(p, (key, updated));
            proof {
                let map2 = legacy_spec(rows@.take(n + 1));
                assert(map.contains_key(m));
                assert(legacy_views(traces@) == map[m]);
                assert(map2 == map.insert(m, trace_step(map[m], *row)));
                assert(groups@ =~= before.update(p as int, (m, updated)));
                assert forall|i: int| 0 <= i < groups@.len() implies #[trigger] map2.contains_key(groups@[i].0)
                    && legacy_views(groups@[i].1@) == map2[groups@[i].0] by {
                    if i != p {
                        assert(groups@[i] == before[i]);
                        assert(before[i].0 != m);
                        assert(map2[before[i].0] == map[before[i].0]);
                    } else {
                        assert(groups@[i] == (m, updated));
                        assert(legacy_views(updated@) == trace_step(map[m], *row));
                        assert(map2[m] == trace_step(map[m], *row));
                        assert(map2.contains_key(m));
                    }
                }
                assert forall|k: i64| #[trigger] map2.contains_key(k) implies exists|i: int| 0 <= i < groups@.len() && groups@[i].0 == k by {
                    if k == m {
                        assert(groups@[p as int].0 == k);
                    } else {
                        assert(map.contains_key(k));
                        let i = choose|i: int| 0 <= i < before.len() && before[i].0 == k;
                        assert(groups@[i].0 == k);
                    }
                }
            }
        } else {
            let first = record_activity(Vec::new(), row);
            groups.insert(p, (m, first));
            proof {
                let map2 = legacy_spec(rows@.take(n + 1));
                assert(!map.contains_key(m)) by {
                    if map.contains_key(m) {
                        let i = choose|i: int| 0 <= i < before.len() && before[i].0 == m;
                        if i >= p {
                            assert(before[p as int].0 <= before[i].0);
                        }
                    }
                }
                assert(legacy_views(Seq::<LegacyTrace>::empty()) =~= Seq::<LegacyView>::empty());
                assert(map2 == map.insert(m, trace_step(Seq::empty(), *row)));
                assert(groups@ =~= before.insert(p as int, (m, first)));
                assert forall|i: int, j: int| 0 <= i < j < groups@.len() implies #[trigger] groups@[i].0 < #[trigger] groups@[j].0 by {
                    if i < p && j < p {
                        assert(groups@[i] == before[i] && groups@[j] == before[j]);
                    } else if i < p && j == p {
                    } else if i < p && j > p {
                        assert(groups@[j].0 == before[j - 1].0);
                    } else if i == p {
                        assert(groups@[j].0 == before[j - 1].0);
                        assert(before[p as int].0 <= before[j - 1].0);
                    } else {
                        assert(groups@[i].0 == before[i - 1].0);
                        assert(groups@[j].0 == before[j - 1].0);
                    }
                }
                assert forall|i: int| 0 <= i < groups@.len() implies #[trigger] map2.contains_key(groups@[i].0)
                    && legacy_views(groups@[i].1@) == map2[groups@[i].0] by {
                    if i < p {
                        assert(groups@[i] == before[i]);
                        assert(map.contains_key(before[i].0));
                        assert(map2[before[i].0] == map[before[i].0]);
                    } else if i > p {
                        assert(groups@[i] == before[i - 1]);
                        assert(map.contains_key(before[i - 1].0));
                        assert(map2[before[i - 1].0] == map[before[i - 1].0]);
                    } else {
                        assert(groups@[i] == (m, first));
                    }
                }
                assert forall|k: i64| #[trigger] map2.contains_key(k) implies exists|i: int| 0 <= i < groups@.len() && groups@[i].0 == k by {
                    if k == m {
                        assert(groups@[p as int].0 == k);
                    } else {
                        assert(map.contains_key(k));
                        let i = choose|i: int| 0 <= i < before.len() && before[i].0 == k;
                        if i < p {
                            assert(groups@[i].0 == k);
                        } else {
                            assert(groups@[i + 1].0 == k);
                        }
                    }
                }
            }
        }
        n += 1;
    }
    assert(rows@.take(rows@.len() as int) =~= rows@);
    groups
}

/// No two calls of a message share an id.
pub open spec fn distinct_calls(traces: Seq<LegacyView>) -> bool {
    forall|i: int, j: int| 0 <= i < j < traces.len() ==> #[trigger] traces[i].call_id != #[trigger] traces[j].call_id
}

proof fn lemma_first_call_found(traces: Seq<LegacyView>, call_id: Seq<char>)
    ensures
        first_call(traces, call_id) == -1 ==> forall|i: int| 0 <= i < traces.len() ==> #[trigger] traces[i].call_id != call_id,
        first_call(traces, call_id) != -1 ==> 0 <= first_call(traces, call_id) < traces.len()
            && traces[first_call(traces, call_id)].call_id == call_id,
    decreases traces.len(),
{
    if traces.len() > 0 {
        let rest = traces.drop_last();
        lemma_first_call_found(rest, call_id);
        assert forall|i: int| 0 <= i < rest.len() implies rest[i] == traces[i] by {}
    }
}

/// Each tool call of a message is gathered into exactly one entry: the calls folded
/// from the activity log never share an id.
pub proof fn lemma_legacy_calls_distinct(rows: Seq<LegacyActivity>, message_id: i64)
    requires
        legacy_spec(rows).contains_key(message_id),
    ensures
        distinct_calls(legacy_spec(rows)[message_id]),
    decreases rows.len(),
{
    let rest = rows.drop_last();
    let previous = legacy_spec(rest);
    let row = rows.last();
    if row.message_id == message_id {
        let before = if previous.contains_key(message_id) { previous[message_id] } else { Seq::empty() };
        if previous.contains_key(message_id) {
            lemma_legacy_calls_distinct(rest, message_id);
        }
        lemma_first_call_found(before, row.call_id@);
        let after = trace_step(before, row);
        assert forall|i: int, j: int| 0 <= i < j < after.len() implies #[trigger] after[i].call_id != #[trigger] after[j].call_id by {
            if first_call(before, row.call_id@) >= 0 {
                assert(after[i].call_id == before[i].call_id);
                assert(after[j].call_id == before[j].call_id);
            } else if j == before.len() {
                assert(after[i] == before[i]);
            } else {
                assert(after[i] == before[i] && after[j] == before[j]);
            }
        }
    } else {
        lemma_legacy_calls_distinct(rest, message_id);
    }
}

/// The key of a migrated call's entry.
pub open spec fn tool_key(call_id: Seq<char>) -> Seq<char> {
    "tool:"@ + call_id
}

/// The entry a migrated call becomes at a position of its trace.
pub open spec fn migrated_entry(t: LegacyView, sequence: int) -> EntryView {
    EntryView {
        key: tool_key(t.call_id),
        sequence: sequence as u64,
        kind: AssistantTraceKind::Tool,
        status: t.status,
        title: t.title,
        tool_name: Some(t.tool_name),
        input: t.input,
        output: t.output,
        started_at: Some(t.started_at),
        finished_at: t.finished_at,
    }
}

/// The trace a message's migrated calls become: one tool entry per call, numbered in
/// order, with no thinking time.
pub fn migrated_trace(traces: &Vec<LegacyTrace>) -> (trace: AssistantTrace)
    ensures
        trace.thinking_duration_ms is None,
        trace.entries@.len() == traces@.len(),
        forall|i: int| 0 <= i < traces@.len() ==> entry_view(#[trigger] trace.entries@[i]) == migrated_entry(
            legacy_view(traces@[i]),
            i,
        ),
{
    let mut entries: Vec<AssistantTraceEntry> = Vec::new();
    let mut i: usize = 0;
    while i < traces.len()
        invariant
            i <= traces@.len(),
            entries@.len() == i,
            forall|k: int| 0 <= k < i ==> entry_view(#[trigger] entries@[k]) == migrated_entry(
                legacy_view(traces@[k]),
                k,
            ),
        decreases traces.len() - i,
    {
        let t = &traces[i];
        let mut key = String::new();
        append_str(&mut key, "tool:");
        append_str(&mut key, t.call_id.as_str());
        entries.push(AssistantTraceEntry {
            key,
            sequence: i as u64,
            kind: AssistantTraceKind::Tool,
            status: t.status,
            title: t.title.clone(),
            tool_name: Some(t.tool_name.clone()),
            input: t.input.clone(),
            output: t.output.clone(),
            started_at: Some(t.started_at),
            finished_at: t.finished_at,
        });
        i += 1;
    }
    AssistantTrace { entries, thinking_duration_ms: None }
}

} // verus!
