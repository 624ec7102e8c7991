//! The run bookkeeping of the message store: each agent has at most one run
//! in progress, to which instructions and output are appended.
use vstd::prelude::*;
use crate::models::RunStatus;
use crate::text::{push_text, same_text, trim_text, trimmed};

verus! {

/// How many characters of an instruction a run summary quotes.
pub const SUMMARY_PREVIEW_CHARS: usize = 96;

/// One entry of a run's output log.
#[derive(Debug, Clone)]
pub struct RunOutput {
    pub kind: String,
    pub content: String,
    pub timestamp: i64,
}

/// One run of work by an agent. Times are milliseconds on the caller's clock.
#[derive(Debug, Clone)]
pub struct Run {
    pub id: usize,
    pub agent_id: String,
    pub status: RunStatus,
    pub started_at: i64,
    pub ended_at: Option<i64>,
    pub summary: Option<String>,
    pub outputs: Vec<RunOutput>,
}

/// Whether a run is still in progress.
pub open spec fn is_active(r: Run) -> bool {
    r.status == RunStatus::InProgress && r.ended_at.is_none()
}

/// Whether every agent has at most one run in progress: an earlier run of an
/// agent that has a later run has ended.
pub open spec fn one_active_per_agent(runs: Seq<Run>) -> bool {
    forall|i: int, j: int| 0 <= i < j < runs.len() && (#[trigger] runs[i]).agent_id@ == (#[trigger] runs[j]).agent_id@
        ==> !is_active(runs[i])
}

/// No run of `agent` comes after its latest run; without a latest run the
/// agent has none.
proof fn lemma_latest_is_last(runs: Seq<Run>, agent: Seq<char>)
    ensures
        match latest_index(runs, agent) {
            Some(k) => forall|i: int| k < i < runs.len() ==> (#[trigger] runs[i]).agent_id@ != agent,
            None => forall|i: int| 0 <= i < runs.len() ==> (#[trigger] runs[i]).agent_id@ != agent,
        },
    decreases runs.len(),
{
    if runs.len() > 0 {
        let rest = runs.drop_last();
        lemma_latest_is_last(rest, agent);
        lemma_latest_in_range(rest, agent);
        if runs.last().agent_id@ != agent {
            match latest_index(rest, agent) {
                Some(k) => {
                    assert forall|i: int| k < i < runs.len() implies (#[trigger] runs[i]).agent_id@ != agent by {
                        if i < runs.len() - 1 { assert(runs[i] == rest[i]); }
                    }
                },
                None => {
                    assert forall|i: int| 0 <= i < runs.len() implies (#[trigger] runs[i]).agent_id@ != agent by {
                        if i < runs.len() - 1 { assert(runs[i] == rest[i]); }
                    }
                },
            }
        }
    }
}

/// The index of an agent's latest run, the last one created for it.
pub open spec fn latest_index(runs: Seq<Run>, agent: Seq<char>) -> Option<int>
    decreases runs.len(),
{
    if runs.len() == 0 {
        None
    } else if runs.last().agent_id@ == agent {
        Some(runs.len() - 1)
    } else {
        latest_index(runs.drop_last(), agent)
    }
}

/// The index of the run that new activity of `agent` goes to: its latest run
/// when that is in progress, otherwise a new run at the end.
pub open spec fn active_index(runs: Seq<Run>, agent: Seq<char>) -> int {
    match latest_index(runs, agent) {
        Some(i) if is_active(runs[i]) => i,
        _ => runs.len() as int,
    }
}

/// The summary of a run started by an instruction.
pub open spec fn instruction_summary(instruction: Seq<char>) -> Seq<char> {
    let t = trimmed(instruction);
    if t.len() == 0 {
        "Running instruction"@
    } else if t.len() <= SUMMARY_PREVIEW_CHARS {
        "Running: "@ + t
    } else {
        "Running: "@ + t.take(SUMMARY_PREVIEW_CHARS as int) + "..."@
    }
}

/// A one-line summary of an instruction, quoting at most 96 characters.
pub fn summarize_instruction(instruction: &str) -> (r: String)
    ensures
        r@ == instruction_summary(instruction@),
{
    let t = trim_text(instruction);
    let n = t.unicode_len();
    if n == 0 {
        return String::from_str("Running instruction");
    }
    let mut r = String::from_str("Running: ");
    if n <= SUMMARY_PREVIEW_CHARS {
        push_text(&mut r, t.as_str());
    } else {
        push_text(&mut r, t.as_str().substring_char(0, SUMMARY_PREVIEW_CHARS));
        push_text(&mut r, "...");
    }
    r
}

/// All runs, oldest first; a run's id is its position.
pub struct RunLedger {
    runs: Vec<Run>,
}

impl RunLedger {
    pub closed spec fn view(&self) -> Seq<Run> {
        self.runs@
    }

    pub closed spec fn wf(&self) -> bool {
        &&& forall|i: int| 0 <= i < self.runs@.len() ==> (#[trigger] self.runs@[i]).id == i
        &&& one_active_per_agent(self.runs@)
    }

    /// A well-formed ledger has at most one run in progress per agent.
    pub proof fn lemma_one_run_in_progress(&self)
        requires
            self.wf(),
        ensures
            one_active_per_agent(self.view()),
    {
    }

    /// An empty ledger.
    pub fn new() -> (r: RunLedger)
        ensures
            r.wf(),
            r.view().len() == 0,
    {
        RunLedger { runs: Vec::new() }
    }

    /// Number of runs recorded.
    pub fn len(&self) -> (n: usize)
        ensures
            n == self.view().len(),
    {
        self.runs.len()
    }

    /// The run at a position.
    pub fn get(&self, index: usize) -> (r: &Run)
        requires
            index < self.view().len(),
        ensures
            *r == self.view()[index as int],
    {
        &self.runs[index]
    }

    /// The position of an agent's latest run.
    pub fn latest_run_index(&self, agent_id: &str) -> (r: Option<usize>)
        ensures
            match r {
                Some(i) => latest_index(self.view(), agent_id@) == Some(i as int),
                None => latest_index(self.view(), agent_id@).is_none(),
            },
    {
        let mut i: usize = self.runs.len();
        assert(self.runs@.take(i as int) =~= self.runs@);
        while i > 0
            invariant
                i <= self.runs@.len(),
                latest_index(self.runs@, agent_id@) == latest_index(self.runs@.take(i as int), agent_id@),
            decreases i,
        {
            proof {
                assert(self.runs@.take(i as int).drop_last() =~= self.runs@.take(i as int - 1));
            }
            if same_text(self.runs[i - 1].agent_id.as_str(), agent_id) {
                return Some(i - 1);
            }
            i = i - 1;
        }
        proof {
            assert(self.runs@.take(0) =~= Seq::<Run>::empty());
        }
        None
    }

    /// The latest run of an agent.
    pub fn latest_run_for_agent(&self, agent_id: &str) -> (r: Option<&Run>)
        ensures
            match latest_index(self.view(), agent_id@) {
                Some(i) => r == Some(&self.view()[i]),
                None => r.is_none(),
            },
    {
        proof {
            assert(self.runs@.take(self.runs@.len() as int) =~= self.runs@);
        }
        match self.latest_run_index(agent_id) {
            Some(i) => {
                proof { lemma_latest_in_range(self.runs@, agent_id@); }
                Some(&self.runs[i])
            },
            None => None,
        }
    }

    /// The position of the run that new activity goes to, creating an
    /// in-progress run with `summary` when the latest one has ended.
    fn ensure_in_progress_run(&mut self, agent_id: &str, summary: Option<String>, now: i64) -> (i: usize)
        requires
            old(self).wf(),
        ensures
            final(self).wf(),
            i == active_index(old(self).view(), agent_id@),
            i < final(self).view().len(),
            is_active(final(self).view()[i as int]),
            final(self).view()[i as int].agent_id@ == agent_id@,
            i <= old(self).view().len(),
            final(self).view().len() == if i < old(self).view().len() { old(self).view().len() } else { old(self).view().len() + 1 },
            forall|j: int| 0 <= j < old(self).view().len() ==> final(self).view()[j] == old(self).view()[j],
            i < old(self).view().len() ==> final(self).view() == old(self).view(),
            i == old(self).view().len() ==> final(self).view() == old(self).view().push(Run {
                id: i,
                agent_id: final(self).view()[i as int].agent_id,
                status: RunStatus::InProgress,
                started_at: now,
                ended_at: None,
                summary,
                outputs: final(self).view()[i as int].outputs,
            }),
            i == old(self).view().len() ==> final(self).view()[i as int].outputs@.len() == 0,
    {
        proof { lemma_latest_in_range(self.runs@, agent_id@); }
        if let Some(idx) = self.latest_run_index(agent_id) {
            let active = match self.runs[idx].status {
                RunStatus::InProgress => self.runs[idx].ended_at.is_none(),
                _ => false,
            };
            if active {
                proof { lemma_latest_matches(self.runs@, agent_id@); }
                return idx;
            }
        }
        let id = self.runs.len();
        let run = Run {
            id: id,
            agent_id: String::from_str(agent_id),
            status: RunStatus::InProgress,
            started_at: now,
            ended_at: None,
            summary,
            outputs: Vec::new(),
        };
        let ghost before = self.runs@;
        proof {
            lemma_latest_is_last(before, agent_id@);
            lemma_latest_in_range(before, agent_id@);
            assert forall|i: int| 0 <= i < before.len() && before[i].agent_id@ == agent_id@ implies !is_active(before[i]) by {
                let k = latest_index(before, agent_id@).unwrap();
                if i < k {
                    assert(before[i].agent_id@ == before[k].agent_id@);
                }
            }
        }
        self.runs.push(run);
        proof {
            assert forall|i: int, j: int| 0 <= i < j < self.runs@.len()
                && (#[trigger] self.runs@[i]).agent_id@ == (#[trigger] self.runs@[j]).agent_id@
                implies !is_active(self.runs@[i]) by {
                assert(self.runs@[i] == before[i]);
                if j < before.len() { assert(self.runs@[j] == before[j]); }
            }
        }
        id
    }

    /// Records an instruction: it is appended to the agent's run in progress,
    /// or to a new one, and becomes that run's summary.
    pub fn start_instruction_run(&mut self, agent_id: &str, instruction: &str, now: i64) -> (i: usize)
        requires
            old(self).wf(),
        ensures
            final(self).wf(),
            i == active_index(old(self).view(), agent_id@),
            i < final(self).view().len(),
            final(self).view().len() == if i < old(self).view().len() { old(self).view().len() } else { old(self).view().len() + 1 },
            forall|j: int| 0 <= j < old(self).view().len() && j != i ==> final(self).view()[j] == old(self).view()[j],
            is_active(final(self).view()[i as int]),
            final(self).view()[i as int].agent_id@ == agent_id@,
            final(self).view()[i as int].summary.is_some(),
            final(self).view()[i as int].summary.unwrap()@ == instruction_summary(instruction@),
            final(self).view()[i as int].outputs@ == (if i < old(self).view().len() {
                old(self).view()[i as int].outputs@
            } else {
                Seq::empty()
            }).push(final(self).view()[i as int].outputs@.last()),
            final(self).view()[i as int].outputs@.last().kind@ == "instruction"@,
            final(self).view()[i as int].outputs@.last().content@ == instruction@,
            final(self).view()[i as int].outputs@.last().timestamp == now,
    {
        let summary = summarize_instruction(instruction);
        let i = self.ensure_in_progress_run(agent_id, Some(summary), now);
        let ghost mid = self.runs@;
        let output = RunOutput {
            kind: String::from_str("instruction"),
            content: String::from_str(instruction),
            timestamp: now,
        };
        self.runs[i].outputs.push(output);
        self.runs[i].summary = Some(summarize_instruction(instruction));
        proof {
            assert forall|j: int| 0 <= j < old(self).view().len() && j != i implies self.runs@[j] == old(self).view()[j] by {
                assert(self.runs@[j] == mid[j]);
            }
        }
        proof {
            assert forall|j: int| 0 <= j < self.runs@.len() implies (#[trigger] self.runs@[j]).id == j by {
                if j != i { assert(self.runs@[j] == mid[j]); }
            }
        }
        i
    }

    /// Appends one output entry to the agent's run in progress, or to a new
    /// run summarised as agent activity.
    pub fn append_run_output(&mut self, agent_id: &str, kind: &str, content: &str, now: i64) -> (i: usize)
        requires
            old(self).wf(),
        ensures
            final(self).wf(),
            i == active_index(old(self).view(), agent_id@),
            i < final(self).view().len(),
            final(self).view().len() == if i < old(self).view().len() { old(self).view().len() } else { old(self).view().len() + 1 },
            forall|j: int| 0 <= j < old(self).view().len() && j != i ==> final(self).view()[j] == old(self).view()[j],
            is_active(final(self).view()[i as int]),
            final(self).view()[i as int].agent_id@ == agent_id@,
            i < old(self).view().len() && old(self).view()[i as int].summary.is_some()
                ==> final(self).view()[i as int].summary == old(self).view()[i as int].summary,
            !(i < old(self).view().len() && old(self).view()[i as int].summary.is_some())
                ==> final(self).view()[i as int].summary.is_some()
                && final(self).view()[i as int].summary.unwrap()@ == "Agent activity"@,
            final(self).view()[i as int].outputs@ == (if i < old(self).view().len() {
                old(self).view()[i as int].outputs@
            } else {
                Seq::empty()
            }).push(final(self).view()[i as int].outputs@.last()),
            final(self).view()[i as int].outputs@.last().kind@ == kind@,
            final(self).view()[i as int].outputs@.last().content@ == content@,
            final(self).view()[i as int].outputs@.last().timestamp == now,
    {
        let i = self.ensure_in_progress_run(agent_id, Some(String::from_str("Agent activity")), now);
        let ghost mid = self.runs@;
        let output = RunOutput {
            kind: String::from_str(kind),
            content: String::from_str(content),
            timestamp: now,
        };
        self.runs[i].outputs.push(output);
        if self.runs[i].summary.is_none() {
            self.runs[i].summary = Some(String::from_str("Agent activity"));
        }
        proof {
            assert forall|j: int| 0 <= j < old(self).view().len() && j != i implies self.runs@[j] == old(self).view()[j] by {
                assert(self.runs@[j] == mid[j]);
            }
        }
        proof {
            assert forall|j: int| 0 <= j < self.runs@.len() implies (#[trigger] self.runs@[j]).id == j by {
                if j != i { assert(self.runs@[j] == mid[j]); }
            }
        }
        i
    }

    /// Ends the agent's run in progress with `status` (and `summary`, when it
    /// is not blank). A latest run that already ended is left as it is; an
    /// agent without runs gets an ended run, for traceability.
    pub fn finalize_latest_run(&mut self, agent_id: &str, status: RunStatus, summary: Option<String>, now: i64) -> (i: usize)
        requires
            old(self).wf(),
        ensures
            final(self).wf(),
            match latest_index(old(self).view(), agent_id@) {
                Some(k) => {
                    &&& i == k
                    &&& forall|j: int| 0 <= j < old(self).view().len() && j != k ==> final(self).view()[j] == old(self).view()[j]
                    &&& final(self).view().len() == old(self).view().len()
                    &&& !is_active(old(self).view()[k]) ==> final(self).view() == old(self).view()
                    &&& is_active(old(self).view()[k]) ==> {
                        let r = final(self).view()[k];
                        let o = old(self).view()[k];
                        &&& r.status == status
                        &&& r.ended_at == Some(now)
                        &&& r.outputs == o.outputs
                        &&& r.agent_id == o.agent_id
                        &&& r.started_at == o.started_at
                        &&& r.summary == match summary {
                            Some(s) if trimmed(s@).len() > 0 => Some(s),
                            _ => o.summary,
                        }
                    }
                },
                None => {
                    &&& i == old(self).view().len()
                    &&& final(self).view().len() == old(self).view().len() + 1
                    &&& final(self).view().take(i as int) == old(self).view()
                    &&& final(self).view()[i as int].agent_id@ == agent_id@
                    &&& final(self).view()[i as int].status == status
                    &&& final(self).view()[i as int].started_at == now
                    &&& final(self).view()[i as int].ended_at == Some(now)
                    &&& final(self).view()[i as int].summary == summary
                    &&& final(self).view()[i as int].outputs@.len() == 0
                },
            },
    {
        proof { lemma_latest_in_range(self.runs@, agent_id@); }
        match self.latest_run_index(agent_id) {
            Some(idx) => {
                let active = match self.runs[idx].status {
                    RunStatus::InProgress => self.runs[idx].ended_at.is_none(),
                    _ => false,
                };
                if active {
                    let ghost mid = self.runs@;
                    self.runs[idx].status = status;
                    self.runs[idx].ended_at = Some(now);
                    match summary {
                        Some(s) => {
                            let t = trim_text(s.as_str());
                            if t.unicode_len() > 0 {
                                self.runs[idx].summary = Some(s);
                            }
                        },
                        None => {},
                    }
                    proof {
                        assert forall|j: int| 0 <= j < self.runs@.len() implies (#[trigger] self.runs@[j]).id == j by {
                            if j != idx { assert(self.runs@[j] == mid[j]); }
                        }
                        assert forall|i: int, j: int| 0 <= i < j < self.runs@.len()
                            && (#[trigger] self.runs@[i]).agent_id@ == (#[trigger] self.runs@[j]).agent_id@
                            implies !is_active(self.runs@[i]) by {
                            if i != idx { assert(self.runs@[i] == mid[i]); }
                            if j != idx { assert(self.runs@[j] == mid[j]); }
                        }
                    }
                }
                idx
            },
            None => {
                let id = self.runs.len();
                let ghost before = self.runs@;
                proof { lemma_latest_is_last(before, agent_id@); }
                self.runs.push(Run {
                    id: id,
                    agent_id: String::from_str(agent_id),
                    status,
                    started_at: now,
                    ended_at: Some(now),
                    summary,
                    outputs: Vec::new(),
                });
                assert(self.runs@.take(id as int) =~= before);
                proof {
                    assert forall|i: int, j: int| 0 <= i < j < self.runs@.len()
                        && (#[trigger] self.runs@[i]).agent_id@ == (#[trigger] self.runs@[j]).agent_id@
                        implies !is_active(self.runs@[i]) by {
                        assert(self.runs@[i] == before[i]);
                        if j < before.len() { assert(self.runs@[j] == before[j]); }
                    }
                }
                id
            },
        }
    }
}

/// An agent's latest run, when there is one, is in range and is the agent's.
pub proof fn lemma_latest_in_range(runs: Seq<Run>, agent: Seq<char>)
    ensures
        match latest_index(runs, agent) {
            Some(i) => 0 <= i < runs.len() && runs[i].agent_id@ == agent,
            None => true,
        },
    decreases runs.len(),
{
    if runs.len() > 0 {
        lemma_latest_in_range(runs.drop_last(), agent);
    }
}

proof fn lemma_latest_matches(runs: Seq<Run>, agent: Seq<char>)
    ensures
        latest_index(runs, agent) is Some ==> runs[latest_index(runs, agent).unwrap()].agent_id@ == agent,
{
    lemma_latest_in_range(runs, agent);
}

/// Two instructions in a row, with no finalize between them, land in one run
/// in progress that records both, in order, as separate outputs.
pub proof fn lemma_instructions_share_one_run(
    before: Seq<Run>,
    middle: Seq<Run>,
    after: Seq<Run>,
    agent: Seq<char>,
    first: usize,
    second: usize,
)
    requires
        first == active_index(before, agent),
        first < middle.len(),
        is_active(middle[first as int]),
        middle[first as int].agent_id@ == agent,
        middle.len() == if first < before.len() { before.len() } else { before.len() + 1 },
        forall|j: int| 0 <= j < before.len() && j != first ==> middle[j] == before[j],
        second == active_index(middle, agent),
        after.len() == if second < middle.len() { middle.len() } else { middle.len() + 1 },
        after[second as int].outputs@ == (if second < middle.len() {
            middle[second as int].outputs@
        } else {
            Seq::empty()
        }).push(after[second as int].outputs@.last()),
    ensures
        second == first,
        after.len() == middle.len(),
        after[second as int].outputs@.len() == middle[first as int].outputs@.len() + 1,
        after[second as int].outputs@.drop_last() == middle[first as int].outputs@,
{
    lemma_latest_after_activity(before, middle, agent, first);
}

pub proof fn lemma_latest_after_activity(before: Seq<Run>, middle: Seq<Run>, agent: Seq<char>, first: usize)
    requires
        first < middle.len(),
        middle[first as int].agent_id@ == agent,
        first == active_index(before, agent),
        middle.len() == if first < before.len() { before.len() } else { before.len() + 1 },
        forall|j: int| 0 <= j < before.len() && j != first ==> middle[j] == before[j],
    ensures
        latest_index(middle, agent) == Some(first as int),
{
    lemma_latest_in_range(before, agent);
    if first < before.len() {
        lemma_latest_unchanged_suffix(before, middle, agent, first as int);
    } else {
        assert(middle.last() == middle[first as int]);
    }
}

pub proof fn lemma_latest_unchanged_suffix(before: Seq<Run>, middle: Seq<Run>, agent: Seq<char>, k: int)
    requires
        latest_index(before, agent) == Some(k),
        0 <= k < before.len(),
        middle.len() == before.len(),
        middle[k].agent_id@ == agent,
        forall|j: int| 0 <= j < before.len() && j != k ==> middle[j] == before[j],
    ensures
        latest_index(middle, agent) == Some(k),
    decreases before.len(),
{
    if k < before.len() - 1 {
        assert(middle.last() == before.last());
        assert(before.last().agent_id@ != agent);
        lemma_latest_unchanged_suffix(before.drop_last(), middle.drop_last(), agent, k);
    }
}

} // verus!
