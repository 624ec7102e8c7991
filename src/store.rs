//! An in-memory message store with the contracts the transports rely on:
//! a pending queue in creation order, delivery marks set once, the run
//! ledger, and a log of agent status updates.
use vstd::prelude::*;
use crate::mock::{mock_output, MockAdapter};
use crate::models::{fresh_message_id, AgentStatus, Message, MessageDirection, MessageKind, RunStatus};
use crate::runs::{active_index, is_active, latest_index, Run, RunLedger};
use crate::text::{same_text, trim_text, trimmed};

verus! {

/// Whether a message is pending for `agent`.
pub open spec fn pending_for(m: Message, agent: Seq<char>) -> bool {
    m.agent_id@ == agent && m.is_pending()
}

/// The status of an agent's latest run, if it has one.
pub open spec fn latest_status(runs: Seq<Run>, agent: Seq<char>) -> Option<RunStatus> {
    match latest_index(runs, agent) {
        Some(i) => Some(runs[i].status),
        None => None,
    }
}

/// Whether an agent's latest run is in progress.
pub open spec fn in_flight(runs: Seq<Run>, agent: Seq<char>) -> bool {
    match latest_index(runs, agent) {
        Some(i) => is_active(runs[i]),
        None => false,
    }
}

/// Whether `new_runs` is `old_runs` with one output of `kind` and `content`
/// logged on the agent's run in progress (a new one when none was).
pub open spec fn logged(old_runs: Seq<Run>, new_runs: Seq<Run>, agent: Seq<char>, kind: Seq<char>, content: Seq<char>) -> bool {
    let i = active_index(old_runs, agent);
    &&& 0 <= i < new_runs.len()
    &&& latest_index(new_runs, agent) == Some(i)
    &&& is_active(new_runs[i])
    &&& new_runs[i].outputs@.len() > 0
    &&& new_runs[i].outputs@.last().kind@ == kind
    &&& new_runs[i].outputs@.last().content@ == content
    &&& forall|j: int| 0 <= j < old_runs.len() && j != i ==> new_runs[j] == old_runs[j]
}

/// Whether `new_msgs` is `old_msgs` with one message from `agent` appended.
pub open spec fn appended(old_msgs: Seq<Message>, new_msgs: Seq<Message>, agent: Seq<char>, kind: MessageKind, content: Seq<char>) -> bool {
    &&& new_msgs.len() == old_msgs.len() + 1
    &&& new_msgs.take(old_msgs.len() as int) == old_msgs
    &&& new_msgs.last().agent_id@ == agent
    &&& new_msgs.last().direction == MessageDirection::FromAgent
    &&& new_msgs.last().kind == kind
    &&& new_msgs.last().content@ == content
}

/// Whether a message kind asks the agent to work: an instruction or a resume.
pub open spec fn is_instruction(kind: MessageKind) -> bool {
    kind == MessageKind::Instruction || kind == MessageKind::Resume
}

/// Whether positions `j` and `j + 1` hold the mock's answer to an instruction
/// with `content`: an output echoing it, then a completion, both from `agent`.
pub open spec fn echo_at(msgs: Seq<Message>, j: int, agent: Seq<char>, content: Seq<char>) -> bool {
    &&& msgs[j].agent_id@ == agent
    &&& msgs[j].direction == MessageDirection::FromAgent
    &&& msgs[j].kind == MessageKind::Output
    &&& msgs[j].content@ == mock_output(content)
    &&& msgs[j + 1].agent_id@ == agent
    &&& msgs[j + 1].direction == MessageDirection::FromAgent
    &&& msgs[j + 1].kind == MessageKind::Completed
}

/// Whether some answer to an instruction with `content` was stored at or
/// after position `from`.
pub open spec fn echoed(msgs: Seq<Message>, from: int, agent: Seq<char>, content: Seq<char>) -> bool {
    exists|j: int| from <= j && j + 1 < msgs.len() && #[trigger] echo_at(msgs, j, agent, content)
}

/// Whether messages are stored in order of creation time.
pub open spec fn in_creation_order(msgs: Seq<Message>) -> bool {
    forall|i: int, j: int| 0 <= i < j < msgs.len() ==> msgs[i].created_at <= msgs[j].created_at
}

/// A message as the store keeps it: its creation time is raised to that of
/// the newest stored message when it is earlier, so storage order is
/// creation order.
pub open spec fn stamped(msgs: Seq<Message>, m: Message) -> Message {
    if msgs.len() > 0 && m.created_at < msgs.last().created_at {
        Message { created_at: msgs.last().created_at, ..m }
    } else {
        m
    }
}

/// The positions of the messages pending for `agent`, in storage order.
pub open spec fn pending_indices(msgs: Seq<Message>, agent: Seq<char>) -> Seq<int>
    decreases msgs.len(),
{
    if msgs.len() == 0 {
        Seq::empty()
    } else {
        let p = pending_indices(msgs.drop_last(), agent);
        if pending_for(msgs.last(), agent) { p.push(msgs.len() - 1) } else { p }
    }
}

/// The pending positions are in range, pending, strictly increasing, and
/// cover every pending message.
pub proof fn lemma_pending_indices(msgs: Seq<Message>, agent: Seq<char>)
    ensures
        forall|k: int| 0 <= k < pending_indices(msgs, agent).len() ==>
            0 <= #[trigger] pending_indices(msgs, agent)[k] < msgs.len()
            && pending_for(msgs[pending_indices(msgs, agent)[k]], agent),
        forall|k: int, l: int| 0 <= k < l < pending_indices(msgs, agent).len() ==>
            pending_indices(msgs, agent)[k] < pending_indices(msgs, agent)[l],
        forall|i: int| 0 <= i < msgs.len() && pending_for(#[trigger] msgs[i], agent) ==>
            pending_indices(msgs, agent).contains(i),
    decreases msgs.len(),
{
    if msgs.len() > 0 {
        let rest = msgs.drop_last();
        lemma_pending_indices(rest, agent);
        let p = pending_indices(rest, agent);
        let q = pending_indices(msgs, agent);
        assert forall|k: int| 0 <= k < q.len() implies
            0 <= #[trigger] q[k] < msgs.len() && pending_for(msgs[q[k]], agent) by {
            if k < p.len() { assert(q[k] == p[k]); assert(msgs[p[k]] == rest[p[k]]); }
        }
        assert forall|i: int| 0 <= i < msgs.len() && pending_for(#[trigger] msgs[i], agent) implies q.contains(i) by {
            if i < msgs.len() - 1 {
                assert(rest[i] == msgs[i]);
                let k = choose|k: int| 0 <= k < p.len() && p[k] == i;
                assert(q[k] == i);
            } else {
                assert(q[q.len() - 1] == i);
            }
        }
    }
}

/// The status an agent takes on after posting a message of this kind.
pub open spec fn status_after_inbound(kind: MessageKind) -> Option<AgentStatus> {
    match kind {
        MessageKind::StatusUpdate | MessageKind::Heartbeat | MessageKind::Output => Some(AgentStatus::Running),
        MessageKind::Error => Some(AgentStatus::Errored),
        MessageKind::Blocked => Some(AgentStatus::Blocked),
        MessageKind::Completed => Some(AgentStatus::Completed),
        _ => None,
    }
}

/// How a posted message of this kind ends the agent's run, if it does.
pub open spec fn run_outcome(kind: MessageKind) -> Option<RunStatus> {
    match kind {
        MessageKind::Error => Some(RunStatus::Failed),
        MessageKind::Blocked => Some(RunStatus::NeedsReview),
        MessageKind::Completed => Some(RunStatus::Completed),
        _ => None,
    }
}

/// The status an agent takes on after posting a message of this kind.
pub fn inbound_status(kind: MessageKind) -> (r: Option<AgentStatus>)
    ensures
        r == status_after_inbound(kind),
{
    match kind {
        MessageKind::StatusUpdate | MessageKind::Heartbeat | MessageKind::Output => Some(AgentStatus::Running),
        MessageKind::Error => Some(AgentStatus::Errored),
        MessageKind::Blocked => Some(AgentStatus::Blocked),
        MessageKind::Completed => Some(AgentStatus::Completed),
        _ => None,
    }
}

/// The messages, runs and status updates of all agents.
pub struct Store {
    messages: Vec<Message>,
    runs: RunLedger,
    status_log: Vec<(String, AgentStatus)>,
}

/// The status updates, as agent id and status.
pub open spec fn status_views(log: Seq<(String, AgentStatus)>) -> Seq<(Seq<char>, AgentStatus)> {
    log.map_values(|e: (String, AgentStatus)| (e.0@, e.1))
}

/// The current status of an agent: its last update, if any.
pub open spec fn current_status(log: Seq<(Seq<char>, AgentStatus)>, agent: Seq<char>) -> Option<AgentStatus>
    decreases log.len(),
{
    if log.len() == 0 {
        None
    } else if log.last().0 == agent {
        Some(log.last().1)
    } else {
        current_status(log.drop_last(), agent)
    }
}

impl Store {
    pub closed spec fn messages(&self) -> Seq<Message> {
        self.messages@
    }

    pub closed spec fn runs(&self) -> Seq<Run> {
        self.runs.view()
    }

    pub closed spec fn statuses(&self) -> Seq<(Seq<char>, AgentStatus)> {
        status_views(self.status_log@)
    }

    pub closed spec fn wf(&self) -> bool {
        &&& self.runs.wf()
        &&& in_creation_order(self.messages@)
    }

    /// An empty store.
    pub fn new() -> (s: Store)
        ensures
            s.wf(),
            s.messages().len() == 0,
            s.runs().len() == 0,
            s.statuses().len() == 0,
    {
        let s = Store { messages: Vec::new(), runs: RunLedger::new(), status_log: Vec::new() };
        assert(s.statuses() =~= Seq::empty());
        s
    }

    /// Number of messages stored.
    pub fn message_count(&self) -> (n: usize)
        ensures
            n == self.messages().len(),
    {
        self.messages.len()
    }

    /// The message at a position.
    pub fn message(&self, index: usize) -> (m: &Message)
        requires
            index < self.messages().len(),
        ensures
            *m == self.messages()[index as int],
    {
        &self.messages[index]
    }

    /// The run ledger.
    pub fn run_ledger(&self) -> (r: &RunLedger)
        ensures
            r.view() == self.runs(),
            self.wf() ==> r.wf(),
    {
        &self.runs
    }

    /// Appends a message, keeping storage order equal to creation order.
    pub fn insert_message(&mut self, message: Message)
        requires
            old(self).wf(),
        ensures
            final(self).wf(),
            final(self).messages() == old(self).messages().push(stamped(old(self).messages(), message)),
            final(self).runs() == old(self).runs(),
            final(self).statuses() == old(self).statuses(),
    {
        let mut m = message;
        let n = self.messages.len();
        if n > 0 {
            let last = self.messages[n - 1].created_at;
            if m.created_at < last {
                m.created_at = last;
            }
        }
        self.messages.push(m);
    }

    /// The positions of the messages pending for an agent, in creation order.
    pub fn pending_messages(&self, agent_id: &str) -> (r: Vec<usize>)
        requires
            self.wf(),
        ensures
            r@.map_values(|x: usize| x as int) == pending_indices(self.messages(), agent_id@),
            forall|k: int, l: int| 0 <= k < l < r@.len() ==>
                self.messages()[r@[k] as int].created_at <= self.messages()[r@[l] as int].created_at,
            forall|k: int| 0 <= k < r@.len() ==> (#[trigger] r@[k]) < self.messages().len()
                && pending_for(self.messages()[r@[k] as int], agent_id@),
            forall|k: int, l: int| 0 <= k < l < r@.len() ==> r@[k] < r@[l],
            forall|i: int| 0 <= i < self.messages().len() && pending_for(#[trigger] self.messages()[i], agent_id@)
                ==> exists|k: int| 0 <= k < r@.len() && r@[k] as int == i,
    {
        let ghost msgs = self.messages@;
        let mut r: Vec<usize> = Vec::new();
        let mut i: usize = 0;
        assert(msgs.take(0) =~= Seq::<Message>::empty());
        assert(r@.map_values(|x: usize| x as int) =~= Seq::<int>::empty());
        while i < self.messages.len()
            invariant
                i <= msgs.len(),
                msgs == self.messages@,
                r@.map_values(|x: usize| x as int) == pending_indices(msgs.take(i as int), agent_id@),
            decreases msgs.len() - i,
        {
            proof {
                assert(msgs.take(i as int + 1).drop_last() =~= msgs.take(i as int));
                assert(msgs.take(i as int + 1).last() == msgs[i as int]);
            }
            let m = &self.messages[i];
            let pending = match m.direction {
                MessageDirection::ToAgent => m.delivered_at.is_none(),
                MessageDirection::FromAgent => false,
            };
            if pending && same_text(m.agent_id.as_str(), agent_id) {
                let ghost before = r@;
                r.push(i);
                assert(r@.map_values(|x: usize| x as int) =~= before.map_values(|x: usize| x as int).push(i as int));
            }
            i = i + 1;
        }
        proof {
            assert(msgs.take(i as int) =~= msgs);
            lemma_pending_indices(msgs, agent_id@);
            let p = pending_indices(msgs, agent_id@);
            assert forall|k: int| 0 <= k < r@.len() implies r@[k] as int == #[trigger] p[k] by {
                assert(r@.map_values(|x: usize| x as int)[k] == r@[k] as int);
            }
            assert forall|i: int| 0 <= i < msgs.len() && pending_for(#[trigger] msgs[i], agent_id@)
                implies exists|k: int| 0 <= k < r@.len() && r@[k] as int == i by {
                let k = choose|k: int| 0 <= k < p.len() && p[k] == i;
                assert(r@[k] as int == p[k]);
            }
            assert forall|k: int, l: int| 0 <= k < l < r@.len() implies
                msgs[r@[k] as int].created_at <= msgs[r@[l] as int].created_at && r@[k] < r@[l] by {
                assert(r@[k] as int == p[k] && r@[l] as int == p[l]);
            }
            assert forall|k: int| 0 <= k < r@.len() implies (#[trigger] r@[k]) < msgs.len()
                && pending_for(msgs[r@[k] as int], agent_id@) by {
                assert(r@[k] as int == p[k]);
            }
        }
        r
    }

    /// Marks a message delivered at `now`, unless it already was.
    pub fn mark_delivered(&mut self, index: usize, now: i64)
        requires
            index < old(self).messages().len(),
        ensures
            final(self).messages().len() == old(self).messages().len(),
            forall|j: int| 0 <= j < old(self).messages().len() && j != index
                ==> final(self).messages()[j] == old(self).messages()[j],
            final(self).messages()[index as int].delivered_at == match old(self).messages()[index as int].delivered_at {
                Some(t) => Some(t),
                None => Some(now),
            },
            final(self).messages()[index as int] == (Message {
                delivered_at: match old(self).messages()[index as int].delivered_at {
                    Some(t) => Some(t),
                    None => Some(now),
                },
                ..old(self).messages()[index as int]
            }),
            final(self).runs() == old(self).runs(),
            final(self).statuses() == old(self).statuses(),
            final(self).wf() == old(self).wf(),
    {
        self.messages[index].mark_delivered(now);
        proof {
            assert forall|i: int, j: int| 0 <= i < j < self.messages@.len() implies
                self.messages@[i].created_at == old(self).messages()[i].created_at
                && self.messages@[j].created_at == old(self).messages()[j].created_at by {}
        }
    }

    /// Records an agent's new status.
    pub fn update_agent_status(&mut self, agent_id: &str, status: AgentStatus)
        ensures
            final(self).statuses() == old(self).statuses().push((agent_id@, status)),
            final(self).messages() == old(self).messages(),
            final(self).runs() == old(self).runs(),
            final(self).wf() == old(self).wf(),
    {
        let ghost before = self.status_log@;
        self.status_log.push((String::from_str(agent_id), status));
        assert(status_views(self.status_log@) =~= status_views(before).push((agent_id@, status)));
    }

    /// Every status an agent was given, oldest first.
    pub fn status_history(&self, agent_id: &str) -> (r: Vec<AgentStatus>)
        ensures
            r@ == self.statuses().filter(|e: (Seq<char>, AgentStatus)| e.0 == agent_id@)
                .map_values(|e: (Seq<char>, AgentStatus)| e.1),
    {
        let ghost log = self.statuses();
        let mut r: Vec<AgentStatus> = Vec::new();
        let mut i: usize = 0;
        while i < self.status_log.len()
            invariant
                i <= self.status_log@.len(),
                log == status_views(self.status_log@),
                r@ == log.take(i as int).filter(|e: (Seq<char>, AgentStatus)| e.0 == agent_id@)
                    .map_values(|e: (Seq<char>, AgentStatus)| e.1),
            decreases self.status_log@.len() - i,
        {
            proof {
                assert(log.take(i as int + 1).drop_last() =~= log.take(i as int));
                log.take(i as int + 1).filter_lemma(|e: (Seq<char>, AgentStatus)| e.0 == agent_id@);
                reveal(Seq::filter);
            }
            let ghost before = r@;
            if same_text(self.status_log[i].0.as_str(), agent_id) {
                r.push(self.status_log[i].1);
                assert(r@ =~= before.push(log[i as int].1));
            }
            proof {
                let f = |e: (Seq<char>, AgentStatus)| e.0 == agent_id@;
                let g = |e: (Seq<char>, AgentStatus)| e.1;
                assert(log.take(i as int + 1).last() == log[i as int]);
                if log[i as int].0 == agent_id@ {
                    assert(log.take(i as int + 1).filter(f) == log.take(i as int).filter(f).push(log[i as int]));
                    assert(log.take(i as int + 1).filter(f).map_values(g) =~= log.take(i as int).filter(f).map_values(g).push(log[i as int].1));
                } else {
                    assert(log.take(i as int + 1).filter(f) == log.take(i as int).filter(f));
                }
            }
            i = i + 1;
        }
        assert(log.take(i as int) =~= log);
        r
    }

    /// An agent's current status.
    pub fn agent_status(&self, agent_id: &str) -> (r: Option<AgentStatus>)
        ensures
            r == current_status(self.statuses(), agent_id@),
    {
        let mut i: usize = self.status_log.len();
        let ghost log = self.statuses();
        assert(log.take(i as int) =~= log);
        while i > 0
            invariant
                i <= self.status_log@.len(),
                log == status_views(self.status_log@),
                current_status(log, agent_id@) == current_status(log.take(i as int), agent_id@),
            decreases i,
        {
            proof {
                assert(log.take(i as int).drop_last() =~= log.take(i as int - 1));
            }
            if same_text(self.status_log[i - 1].0.as_str(), agent_id) {
                return Some(self.status_log[i - 1].1);
            }
            i = i - 1;
        }
        None
    }

    /// See `RunLedger::start_instruction_run`.
    pub fn start_instruction_run(&mut self, agent_id: &str, instruction: &str, now: i64) -> (i: usize)
        requires
            old(self).wf(),
        ensures
            final(self).wf(),
            final(self).messages() == old(self).messages(),
            final(self).statuses() == old(self).statuses(),
            i < final(self).runs().len(),
            is_active(final(self).runs()[i as int]),
            final(self).runs()[i as int].agent_id@ == agent_id@,
            latest_index(final(self).runs(), agent_id@) == Some(i as int),
            i == active_index(old(self).runs(), agent_id@),
            forall|j: int| 0 <= j < old(self).runs().len() && j != i ==> final(self).runs()[j] == old(self).runs()[j],
            final(self).runs()[i as int].outputs@.len() > 0,
            final(self).runs()[i as int].outputs@.last().kind@ == "instruction"@,
            final(self).runs()[i as int].outputs@.last().content@ == instruction@,
    {
        let ghost before = self.runs.view();
        let i = self.runs.start_instruction_run(agent_id, instruction, now);
        proof { crate::runs::lemma_latest_after_activity(before, self.runs.view(), agent_id@, i); }
        i
    }

    /// See `RunLedger::append_run_output`.
    pub fn append_run_output(&mut self, agent_id: &str, kind: &str, content: &str, now: i64) -> (i: usize)
        requires
            old(self).wf(),
        ensures
            final(self).wf(),
            final(self).messages() == old(self).messages(),
            final(self).statuses() == old(self).statuses(),
            i < final(self).runs().len(),
            is_active(final(self).runs()[i as int]),
            latest_index(final(self).runs(), agent_id@) == Some(i as int),
            i == active_index(old(self).runs(), agent_id@),
            forall|j: int| 0 <= j < old(self).runs().len() && j != i ==> final(self).runs()[j] == old(self).runs()[j],
            final(self).runs()[i as int].outputs@.len() > 0,
            final(self).runs()[i as int].outputs@.last().kind@ == kind@,
            final(self).runs()[i as int].outputs@.last().content@ == content@,
    {
        let ghost before = self.runs.view();
        let i = self.runs.append_run_output(agent_id, kind, content, now);
        proof { crate::runs::lemma_latest_after_activity(before, self.runs.view(), agent_id@, i); }
        i
    }

    /// See `RunLedger::finalize_latest_run`.
    pub fn finalize_latest_run(&mut self, agent_id: &str, status: RunStatus, summary: Option<String>, now: i64) -> (i: usize)
        requires
            old(self).wf(),
        ensures
            final(self).wf(),
            final(self).messages() == old(self).messages(),
            final(self).statuses() == old(self).statuses(),
            i < final(self).runs().len(),
            latest_index(old(self).runs(), agent_id@) is Some ==> {
                &&& latest_index(old(self).runs(), agent_id@) == Some(i as int)
                &&& latest_index(final(self).runs(), agent_id@) == Some(i as int)
                &&& is_active(old(self).runs()[i as int]) ==> final(self).runs()[i as int].status == status
                    && final(self).runs()[i as int].ended_at == Some(now)
                    && final(self).runs()[i as int].outputs == old(self).runs()[i as int].outputs
                    && final(self).runs().len() == old(self).runs().len()
                    && (forall|j: int| 0 <= j < old(self).runs().len() && j != i ==> final(self).runs()[j] == old(self).runs()[j])
                    && final(self).runs()[i as int].summary == match summary {
                        Some(t) if crate::text::trimmed(t@).len() > 0 => Some(t),
                        _ => old(self).runs()[i as int].summary,
                    }
                &&& !is_active(old(self).runs()[i as int]) ==> final(self).runs() == old(self).runs()
            },
            latest_index(old(self).runs(), agent_id@) is None ==> {
                &&& latest_index(final(self).runs(), agent_id@) == Some(i as int)
                &&& final(self).runs()[i as int].status == status
                &&& final(self).runs()[i as int].summary == summary
            },
    {
        let ghost before = self.runs.view();
        proof { crate::runs::lemma_latest_in_range(before, agent_id@); }
        let i = self.runs.finalize_latest_run(agent_id, status, summary, now);
        proof {
            if latest_index(before, agent_id@) is Some {
                crate::runs::lemma_latest_unchanged_suffix(before, self.runs.view(), agent_id@, i as int);
            } else {
                assert(self.runs.view().last() == self.runs.view()[i as int]);
            }
        }
        i
    }

    /// Queues a message for an agent and records what it means for the run
    /// and the agent: an instruction (or resume) starts or extends the run in
    /// progress and the agent runs; a pause is logged and blocks the agent; a
    /// cancel is logged, fails the run and idles the agent. Returns the
    /// message's position.
    pub fn send_message(&mut self, agent_id: &str, kind: MessageKind, content: &str, reply_to: Option<String>) -> (i: usize)
        requires
            old(self).wf(),
        ensures
            final(self).wf(),
            i == old(self).messages().len(),
            final(self).messages().len() == i + 1,
            final(self).messages().take(i as int) == old(self).messages(),
            final(self).messages()[i as int].agent_id@ == agent_id@,
            final(self).messages()[i as int].kind == kind,
            final(self).messages()[i as int].content@ == content@,
            final(self).messages()[i as int].reply_to == reply_to,
            final(self).messages()[i as int].is_pending(),
            (kind == MessageKind::Instruction || kind == MessageKind::Resume) ==> {
                &&& final(self).statuses() == old(self).statuses().push((agent_id@, AgentStatus::Running))
                &&& logged(old(self).runs(), final(self).runs(), agent_id@, "instruction"@, content@)
                &&& latest_index(final(self).runs(), agent_id@) is Some
                &&& is_active(final(self).runs()[latest_index(final(self).runs(), agent_id@).unwrap()])
            },
            kind == MessageKind::Pause ==> final(self).statuses() == old(self).statuses().push((agent_id@, AgentStatus::Blocked)),
            kind == MessageKind::Cancel ==> {
                &&& final(self).statuses() == old(self).statuses().push((agent_id@, AgentStatus::Idle))
                &&& latest_index(final(self).runs(), agent_id@) is Some
                &&& final(self).runs()[latest_index(final(self).runs(), agent_id@).unwrap()].status == RunStatus::Failed
            },
            (kind != MessageKind::Instruction && kind != MessageKind::Resume && kind != MessageKind::Pause
                && kind != MessageKind::Cancel) ==> {
                &&& final(self).statuses() == old(self).statuses()
                &&& final(self).runs() == old(self).runs()
            },
    {
        let mut m = Message::to_agent(agent_id, kind, content);
        m.reply_to = reply_to;
        let now = m.created_at;
        let i = self.messages.len();
        let ghost before = self.messages@;
        self.insert_message(m);
        assert(self.messages@.take(i as int) =~= before);
        match kind {
            MessageKind::Instruction | MessageKind::Resume => {
                self.start_instruction_run(agent_id, content, now);
                self.update_agent_status(agent_id, AgentStatus::Running);
            },
            MessageKind::Pause => {
                self.append_run_output(agent_id, "pause", content, now);
                self.update_agent_status(agent_id, AgentStatus::Blocked);
            },
            MessageKind::Cancel => {
                self.append_run_output(agent_id, "cancel", content, now);
                self.finalize_latest_run(agent_id, RunStatus::Failed, Some(String::from_str("Cancelled by operator")), now);
                self.update_agent_status(agent_id, AgentStatus::Idle);
            },
            _ => {},
        }
        i
    }

    /// Stores a message posted by an agent and records it: output, status
    /// updates and non-blank heartbeats are logged on the run; an error, a
    /// block or a completion is logged and ends the run as failed, needing
    /// review, or completed. The agent's status follows the kind. Returns the
    /// message's position.
    pub fn receive_message(
        &mut self,
        agent_id: &str,
        kind: MessageKind,
        content: &str,
        metadata: Vec<(String, String)>,
        reply_to: Option<String>,
    ) -> (i: usize)
        requires
            old(self).wf(),
        ensures
            final(self).wf(),
            i == old(self).messages().len(),
            final(self).messages().len() == i + 1,
            final(self).messages().take(i as int) == old(self).messages(),
            final(self).messages()[i as int].agent_id@ == agent_id@,
            final(self).messages()[i as int].direction == MessageDirection::FromAgent,
            final(self).messages()[i as int].kind == kind,
            final(self).messages()[i as int].content@ == content@,
            final(self).messages()[i as int].metadata == metadata,
            final(self).messages()[i as int].reply_to == reply_to,
            final(self).statuses() == match status_after_inbound(kind) {
                Some(st) => old(self).statuses().push((agent_id@, st)),
                None => old(self).statuses(),
            },
            run_outcome(kind) is Some ==> {
                &&& latest_index(final(self).runs(), agent_id@) is Some
                &&& final(self).runs()[latest_index(final(self).runs(), agent_id@).unwrap()].status == run_outcome(kind).unwrap()
            },
            status_after_inbound(kind).is_none() ==> final(self).runs() == old(self).runs(),
            kind == MessageKind::Output ==> logged(old(self).runs(), final(self).runs(), agent_id@, "output"@, content@),
            kind == MessageKind::StatusUpdate ==> logged(old(self).runs(), final(self).runs(), agent_id@, "status_update"@, content@),
            kind == MessageKind::Heartbeat && trimmed(content@).len() > 0
                ==> logged(old(self).runs(), final(self).runs(), agent_id@, "heartbeat"@, content@),
            kind == MessageKind::Heartbeat && trimmed(content@).len() == 0 ==> final(self).runs() == old(self).runs(),
    {
        let mut m = Message::from_agent(agent_id, kind, content);
        m.metadata = metadata;
        m.reply_to = reply_to;
        let now = m.created_at;
        let i = self.messages.len();
        let ghost before = self.messages@;
        self.insert_message(m);
        assert(self.messages@.take(i as int) =~= before);
        match kind {
            MessageKind::Output => {
                self.append_run_output(agent_id, "output", content, now);
            },
            MessageKind::StatusUpdate => {
                self.append_run_output(agent_id, "status_update", content, now);
            },
            MessageKind::Heartbeat => {
                if trim_text(content).unicode_len() > 0 {
                    self.append_run_output(agent_id, "heartbeat", content, now);
                }
            },
            MessageKind::Error => {
                self.append_run_output(agent_id, "error", content, now);
                self.finalize_latest_run(agent_id, RunStatus::Failed, Some(String::from_str(content)), now);
            },
            MessageKind::Blocked => {
                self.append_run_output(agent_id, "blocked", content, now);
                self.finalize_latest_run(agent_id, RunStatus::NeedsReview, Some(String::from_str(content)), now);
            },
            MessageKind::Completed => {
                self.append_run_output(agent_id, "completed", content, now);
                self.finalize_latest_run(agent_id, RunStatus::Completed, Some(String::from_str(content)), now);
            },
            _ => {},
        }
        match inbound_status(kind) {
            Some(st) => self.update_agent_status(agent_id, st),
            None => {},
        }
        i
    }

    /// Hands out the messages pending for an agent, oldest first, and marks
    /// each delivered at `now`.
    pub fn poll_pending_messages(&mut self, agent_id: &str, now: i64) -> (r: Vec<usize>)
        requires
            old(self).wf(),
        ensures
            final(self).wf(),
            final(self).messages().len() == old(self).messages().len(),
            final(self).runs() == old(self).runs(),
            final(self).statuses() == old(self).statuses(),
            forall|k: int| 0 <= k < r@.len() ==> (#[trigger] r@[k]) < old(self).messages().len()
                && pending_for(old(self).messages()[r@[k] as int], agent_id@),
            forall|k: int, l: int| 0 <= k < l < r@.len() ==> r@[k] < r@[l],
            r@.map_values(|x: usize| x as int) == pending_indices(old(self).messages(), agent_id@),
            forall|i: int| 0 <= i < old(self).messages().len() && pending_for(#[trigger] old(self).messages()[i], agent_id@)
                ==> final(self).messages()[i] == (Message { delivered_at: Some(now), ..old(self).messages()[i] }),
            forall|i: int| 0 <= i < old(self).messages().len() && !pending_for(#[trigger] old(self).messages()[i], agent_id@)
                ==> final(self).messages()[i] == old(self).messages()[i],
    {
        let pending = self.pending_messages(agent_id);
        let ghost start = self.messages@;
        let mut k: usize = 0;
        while k < pending.len()
            invariant
                self.wf(),
                k <= pending@.len(),
                self.messages@.len() == start.len(),
                self.runs.view() == old(self).runs(),
                status_views(self.status_log@) == old(self).statuses(),
                start == old(self).messages(),
                forall|a: int| 0 <= a < pending@.len() ==> (#[trigger] pending@[a]) < start.len()
                    && pending_for(start[pending@[a] as int], agent_id@),
                forall|a: int, b: int| 0 <= a < b < pending@.len() ==> pending@[a] < pending@[b],
                forall|i: int| 0 <= i < start.len() && pending_for(#[trigger] start[i], agent_id@)
                    ==> exists|a: int| 0 <= a < pending@.len() && pending@[a] as int == i,
                forall|i: int| 0 <= i < start.len() && !(exists|a: int| 0 <= a < k && pending@[a] as int == i)
                    ==> #[trigger] self.messages@[i] == start[i],
                forall|a: int| 0 <= a < k ==> self.messages@[#[trigger] pending@[a] as int]
                    == (Message { delivered_at: Some(now), ..start[pending@[a] as int] }),
            decreases pending@.len() - k,
        {
            let index = pending[k];
            let ghost before = self.messages@;
            self.mark_delivered(index, now);
            proof {
                assert forall|i: int| 0 <= i < start.len() && !(exists|a: int| 0 <= a < k + 1 && pending@[a] as int == i)
                    implies #[trigger] self.messages@[i] == start[i] by {
                    assert(i != index as int);
                    assert(self.messages@[i] == before[i]);
                }
                assert forall|a: int| 0 <= a < k + 1 implies self.messages@[#[trigger] pending@[a] as int]
                    == (Message { delivered_at: Some(now), ..start[pending@[a] as int] }) by {
                    if a < k {
                        assert(pending@[a] != index);
                    } else {
                        assert(start[index as int].delivered_at.is_none());
                        assert(before[index as int] == start[index as int]);
                    }
                }
            }
            k = k + 1;
        }
        proof {
            assert forall|i: int| 0 <= i < start.len() && pending_for(#[trigger] start[i], agent_id@)
                implies self.messages@[i] == (Message { delivered_at: Some(now), ..start[i] }) by {
                let a = choose|a: int| 0 <= a < pending@.len() && pending@[a] as int == i;
                assert(self.messages@[pending@[a] as int] == (Message { delivered_at: Some(now), ..start[pending@[a] as int] }));
            }
            assert forall|i: int| 0 <= i < start.len() && !pending_for(#[trigger] start[i], agent_id@)
                implies self.messages@[i] == start[i] by {
                if exists|a: int| 0 <= a < k && pending@[a] as int == i {
                    let a = choose|a: int| 0 <= a < k && pending@[a] as int == i;
                    assert(pending_for(start[pending@[a] as int], agent_id@));
                }
            }
        }
        pending
    }

    /// Stores a message from an agent and logs it on the agent's run.
    pub fn record_inbound(&mut self, agent_id: &str, kind: MessageKind, content: &str, run_kind: &str, now: i64)
        requires
            old(self).wf(),
        ensures
            final(self).wf(),
            appended(old(self).messages(), final(self).messages(), agent_id@, kind, content@),
            final(self).statuses() == old(self).statuses(),
            logged(old(self).runs(), final(self).runs(), agent_id@, run_kind@, content@),
    {
        self.emit(agent_id, kind, content, now);
        self.append_run_output(agent_id, run_kind, content, now);
    }

    /// Whether the agent's latest run is in progress.
    pub fn run_in_flight(&self, agent_id: &str) -> (r: bool)
        ensures
            r == in_flight(self.runs(), agent_id@),
    {
        match self.runs.latest_run_for_agent(agent_id) {
            Some(run) => match run.status {
                RunStatus::InProgress => run.ended_at.is_none(),
                _ => false,
            },
            None => false,
        }
    }

    /// Stores a new message from an agent.
    fn emit(&mut self, agent_id: &str, kind: MessageKind, content: &str, now: i64)
        requires
            old(self).wf(),
        ensures
            final(self).messages().len() == old(self).messages().len() + 1,
            final(self).messages().take(old(self).messages().len() as int) == old(self).messages(),
            final(self).messages().last().agent_id@ == agent_id@,
            final(self).messages().last().direction == MessageDirection::FromAgent,
            final(self).messages().last().kind == kind,
            final(self).messages().last().content@ == content@,
            final(self).runs() == old(self).runs(),
            final(self).statuses() == old(self).statuses(),
            final(self).wf(),
    {
        let id = fresh_message_id();
        let m = Message::inbound(id.as_str(), agent_id, kind, content, now);
        let ghost before = self.messages@;
        self.insert_message(m);
        assert(self.messages@.take(before.len() as int) =~= before);
    }
}

impl MockAdapter {
    /// Handles one pending message of an agent, as the mock poll loop does:
    /// the message is marked delivered; an instruction (or resume) starts a
    /// run, is echoed as output, and completes the run and the agent; a
    /// status request is answered; a pause blocks the agent; a cancel fails
    /// the run and idles the agent.
    pub fn handle_message(&self, store: &mut Store, agent_id: &str, index: usize, now: i64)
        requires
            old(store).wf(),
            index < old(store).messages().len(),
            old(store).messages()[index as int].agent_id@ == agent_id@,
        ensures
            final(store).wf(),
            final(store).messages().len() >= old(store).messages().len(),
            forall|j: int| 0 <= j < old(store).messages().len() && j != index
                ==> final(store).messages()[j] == old(store).messages()[j],
            final(store).messages()[index as int].delivered_at.is_some(),
            final(store).messages()[index as int].kind == old(store).messages()[index as int].kind,
            final(store).messages()[index as int].agent_id == old(store).messages()[index as int].agent_id,
            final(store).messages()[index as int].direction == old(store).messages()[index as int].direction,
            ({
                let m = old(store).messages()[index as int];
                let n = old(store).messages().len();
                (m.kind == MessageKind::Instruction || m.kind == MessageKind::Resume) ==> {
                    &&& final(store).messages().len() == n + 2
                    &&& final(store).messages()[n as int].kind == MessageKind::Output
                    &&& final(store).messages()[n as int].direction == MessageDirection::FromAgent
                    &&& final(store).messages()[n as int].content@ == mock_output(m.content@)
                    &&& final(store).messages()[n as int].agent_id@ == agent_id@
                    &&& final(store).messages()[n as int + 1].agent_id@ == agent_id@
                    &&& final(store).messages()[n as int].created_at <= final(store).messages()[n as int + 1].created_at
                    &&& final(store).messages()[n as int + 1].kind == MessageKind::Completed
                    &&& final(store).messages()[n as int + 1].direction == MessageDirection::FromAgent
                    &&& final(store).statuses() == old(store).statuses()
                        .push((agent_id@, AgentStatus::Running))
                        .push((agent_id@, AgentStatus::Running))
                        .push((agent_id@, AgentStatus::Completed))
                    &&& latest_index(final(store).runs(), agent_id@) is Some
                    &&& final(store).runs()[latest_index(final(store).runs(), agent_id@).unwrap()].status == RunStatus::Completed
                }
            }),
            ({
                let m = old(store).messages()[index as int];
                let n = old(store).messages().len();
                &&& m.kind == MessageKind::StatusRequest ==> {
                    &&& final(store).messages().len() == n + 1
                    &&& final(store).messages()[n as int].kind == MessageKind::StatusUpdate
                    &&& final(store).statuses() == old(store).statuses()
                }
                &&& m.kind == MessageKind::Pause ==> {
                    &&& final(store).messages().len() == n + 1
                    &&& final(store).messages()[n as int].kind == MessageKind::Blocked
                    &&& final(store).statuses() == old(store).statuses().push((agent_id@, AgentStatus::Blocked))
                }
                &&& m.kind == MessageKind::Cancel ==> {
                    &&& final(store).messages().len() == n
                    &&& final(store).statuses() == old(store).statuses().push((agent_id@, AgentStatus::Idle))
                    &&& latest_index(final(store).runs(), agent_id@) is Some
                    &&& final(store).runs()[latest_index(final(store).runs(), agent_id@).unwrap()].status == RunStatus::Failed
                }
                &&& (m.kind != MessageKind::Instruction && m.kind != MessageKind::Resume
                    && m.kind != MessageKind::StatusRequest && m.kind != MessageKind::Pause
                    && m.kind != MessageKind::Cancel) ==> {
                    &&& final(store).messages().len() == n
                    &&& final(store).statuses() == old(store).statuses()
                    &&& final(store).runs() == old(store).runs()
                }
            }),
    {
        let ghost n = store.messages().len();
        let ghost m0 = store.messages()[index as int];
        store.mark_delivered(index, now);
        let kind = store.messages[index].kind;
        let content = store.messages[index].content.clone();
        match kind {
            MessageKind::Instruction | MessageKind::Resume => {
                store.start_instruction_run(agent_id, content.as_str(), now);
                store.update_agent_status(agent_id, AgentStatus::Running);
                let reply = MockAdapter::reply_text(content.as_str());
                store.emit(agent_id, MessageKind::Output, reply.as_str(), now);
                let ghost out_msgs = store.messages();
                store.append_run_output(agent_id, "output", reply.as_str(), now);
                store.update_agent_status(agent_id, AgentStatus::Running);
                store.emit(agent_id, MessageKind::Completed, "Task completed (mock)", now);
                proof {
                    assert(store.messages()[n as int] == out_msgs[n as int]);
                }
                store.append_run_output(agent_id, "completed", "Task completed (mock)", now);
                let i = store.finalize_latest_run(agent_id, RunStatus::Completed,
                    Some(String::from_str("Task completed (mock)")), now);
                store.update_agent_status(agent_id, AgentStatus::Completed);
            },
            MessageKind::StatusRequest => {
                store.emit(agent_id, MessageKind::StatusUpdate, "Mock adapter healthy; waiting for instructions.", now);
                store.append_run_output(agent_id, "status_update", "Mock adapter healthy; waiting for instructions.", now);
            },
            MessageKind::Pause => {
                store.append_run_output(agent_id, "pause", content.as_str(), now);
                store.update_agent_status(agent_id, AgentStatus::Blocked);
                store.emit(agent_id, MessageKind::Blocked, "Paused by operator", now);
            },
            MessageKind::Cancel => {
                store.append_run_output(agent_id, "cancel", content.as_str(), now);
                store.finalize_latest_run(agent_id, RunStatus::Failed,
                    Some(String::from_str("Cancelled by operator")), now);
                store.update_agent_status(agent_id, AgentStatus::Idle);
            },
            _ => {},
        }
    }

    /// One poll of the mock transport: every message pending for the agent
    /// is handled in creation order and ends up delivered.
    pub fn poll_once(&self, store: &mut Store, agent_id: &str, now: i64) -> (handled: usize)
        requires
            old(store).wf(),
        ensures
            final(store).wf(),
            final(store).messages().len() >= old(store).messages().len(),
            handled == pending_indices(old(store).messages(), agent_id@).len(),
            forall|i: int| 0 <= i < old(store).messages().len() && pending_for(#[trigger] old(store).messages()[i], agent_id@)
                ==> final(store).messages()[i].delivered_at.is_some(),
            forall|i: int| 0 <= i < old(store).messages().len() && pending_for(#[trigger] old(store).messages()[i], agent_id@)
                && is_instruction(old(store).messages()[i].kind) ==> echoed(final(store).messages(),
                    old(store).messages().len() as int, agent_id@, old(store).messages()[i].content@),
            ({
                let p = pending_indices(old(store).messages(), agent_id@);
                p.len() > 0 && is_instruction(old(store).messages()[p.last()].kind) ==> {
                    &&& current_status(final(store).statuses(), agent_id@) == Some(AgentStatus::Completed)
                    &&& latest_index(final(store).runs(), agent_id@) is Some
                    &&& final(store).runs()[latest_index(final(store).runs(), agent_id@).unwrap()].status == RunStatus::Completed
                }
            }),
    {
        let pending = store.pending_messages(agent_id);
        let ghost start = store.messages();
        let ghost p = pending_indices(start, agent_id@);
        proof {
            assert forall|a: int| 0 <= a < pending@.len() implies pending@[a] as int == #[trigger] p[a] by {
                assert(pending@.map_values(|x: usize| x as int)[a] == pending@[a] as int);
            }
        }
        let mut k: usize = 0;
        while k < pending.len()
            invariant
                store.wf(),
                k <= pending@.len(),
                pending@.len() == p.len(),
                p == pending_indices(start, agent_id@),
                forall|a: int| 0 <= a < pending@.len() ==> pending@[a] as int == #[trigger] p[a],
                store.messages().len() >= start.len(),
                forall|a: int| 0 <= a < pending@.len() ==> (#[trigger] pending@[a]) < start.len()
                    && pending_for(start[pending@[a] as int], agent_id@),
                forall|a: int, b: int| 0 <= a < b < pending@.len() ==> pending@[a] < pending@[b],
                forall|i: int| 0 <= i < start.len() && pending_for(#[trigger] start[i], agent_id@)
                    ==> exists|a: int| 0 <= a < pending@.len() && pending@[a] as int == i,
                forall|a: int| 0 <= a < k ==> store.messages()[#[trigger] pending@[a] as int].delivered_at.is_some(),
                forall|a: int| 0 <= a < k && is_instruction(start[pending@[a] as int].kind) ==>
                    echoed(store.messages(), start.len() as int, agent_id@, start[#[trigger] pending@[a] as int].content@),
                forall|a: int| k <= a < pending@.len() ==> store.messages()[#[trigger] pending@[a] as int] == start[pending@[a] as int],
                k > 0 && is_instruction(start[pending@[k - 1] as int].kind) ==> {
                    &&& current_status(store.statuses(), agent_id@) == Some(AgentStatus::Completed)
                    &&& latest_index(store.runs(), agent_id@) is Some
                    &&& store.runs()[latest_index(store.runs(), agent_id@).unwrap()].status == RunStatus::Completed
                },
            decreases pending@.len() - k,
        {
            let index = pending[k];
            let ghost before = store.messages();
            let ghost before_len = before.len();
            self.handle_message(store, agent_id, index, now);
            proof {
                assert forall|a: int| k + 1 <= a < pending@.len() implies
                    store.messages()[#[trigger] pending@[a] as int] == start[pending@[a] as int] by {
                    assert(pending@[a] != index);
                    assert(before[pending@[a] as int] == start[pending@[a] as int]);
                }
                assert forall|a: int| 0 <= a < k + 1 implies
                    store.messages()[#[trigger] pending@[a] as int].delivered_at.is_some() by {
                    if a < k {
                        assert(pending@[a] != index);
                        assert(store.messages()[pending@[a] as int] == before[pending@[a] as int]);
                    }
                }
                assert forall|a: int| 0 <= a < k + 1 && is_instruction(start[pending@[a] as int].kind) implies
                    echoed(store.messages(), start.len() as int, agent_id@, start[#[trigger] pending@[a] as int].content@) by {
                    if a < k {
                        let j = choose|j: int| start.len() <= j && j + 1 < before.len() && echo_at(before, j, agent_id@, start[pending@[a] as int].content@);
                        assert(store.messages()[j] == before[j]);
                        assert(store.messages()[j + 1] == before[j + 1]);
                        assert(echo_at(store.messages(), j, agent_id@, start[pending@[a] as int].content@));
                    } else {
                        assert(before[index as int] == start[index as int]);
                        assert(echo_at(store.messages(), before_len as int, agent_id@, start[pending@[a] as int].content@));
                    }
                }
                if is_instruction(start[index as int].kind) {
                    assert(before[index as int] == start[index as int]);
                    let log = store.statuses();
                    assert(log.last() == (agent_id@, AgentStatus::Completed));
                }
            }
            k = k + 1;
        }
        proof {
            assert forall|i: int| 0 <= i < start.len() && pending_for(#[trigger] start[i], agent_id@)
                implies store.messages()[i].delivered_at.is_some() by {
                let a = choose|a: int| 0 <= a < pending@.len() && pending@[a] as int == i;
                assert(store.messages()[pending@[a] as int].delivered_at.is_some());
            }
            assert forall|i: int| 0 <= i < start.len() && pending_for(#[trigger] start[i], agent_id@)
                && is_instruction(start[i].kind) implies echoed(store.messages(), start.len() as int, agent_id@, start[i].content@) by {
                let a = choose|a: int| 0 <= a < pending@.len() && pending@[a] as int == i;
                assert(echoed(store.messages(), start.len() as int, agent_id@, start[pending@[a] as int].content@));
            }
            if p.len() > 0 {
                assert(p.last() == pending@[pending@.len() - 1] as int);
            }
        }
        pending.len()
    }
}

} // verus!
