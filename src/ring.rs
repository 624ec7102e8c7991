//! A bounded buffer of the most recent output lines of a subprocess.
use vstd::prelude::*;
use std::collections::VecDeque;
use crate::text::{decimal, join_lines, push_char, push_text, render_u64};

verus! {

/// How many lines the buffer keeps.
pub const OUTPUT_RING_MAX_LINES: usize = 240;

/// How many lines a status reply quotes.
pub const STATUS_TAIL_LINES: usize = 8;

/// The lines that a buffer holds, as character sequences.
pub open spec fn line_views(lines: Seq<String>) -> Seq<Seq<char>> {
    lines.map_values(|l: String| l@)
}

/// The buffer after one more line: the oldest line leaves once the buffer is
/// full, and the count of dropped lines grows (saturating at `usize::MAX`).
pub open spec fn ring_push(lines: Seq<Seq<char>>, dropped: nat, line: Seq<char>) -> (Seq<Seq<char>>, nat) {
    if lines.len() >= OUTPUT_RING_MAX_LINES {
        (lines.drop_first().push(line), if dropped + 1 <= usize::MAX { dropped + 1 } else { dropped })
    } else {
        (lines.push(line), dropped)
    }
}

/// A fresh buffer after the given lines were pushed in order.
pub open spec fn ring_after(pushes: Seq<Seq<char>>) -> (Seq<Seq<char>>, nat)
    decreases pushes.len(),
{
    if pushes.len() == 0 {
        (Seq::empty(), 0)
    } else {
        let before = ring_after(pushes.drop_last());
        ring_push(before.0, before.1, pushes.last())
    }
}

/// The banner that stands above a snapshot when lines were dropped.
pub open spec fn truncation_banner(dropped: nat) -> Seq<char> {
    "... ["@ + decimal(dropped) + " earlier lines truncated]"@
}

/// The last `k` lines (all of them when there are fewer).
pub open spec fn tail(lines: Seq<Seq<char>>, k: nat) -> Seq<Seq<char>> {
    if k >= lines.len() {
        lines
    } else {
        lines.subrange(lines.len() - k, lines.len() as int)
    }
}

/// A snapshot: nothing when nothing was ever pushed; otherwise the banner (when
/// lines were dropped) and the last `k` lines, one per line.
pub open spec fn snapshot(lines: Seq<Seq<char>>, dropped: nat, k: nat) -> Option<Seq<char>> {
    if lines.len() == 0 && dropped == 0 {
        None
    } else if dropped > 0 {
        Some(join_lines(seq![truncation_banner(dropped)] + tail(lines, k)))
    } else {
        Some(join_lines(tail(lines, k)))
    }
}

/// Recent output lines, oldest first, with a count of lines that left.
#[derive(Debug)]
pub struct OutputRingBuffer {
    lines: VecDeque<String>,
    dropped_lines: usize,
}

impl OutputRingBuffer {
    pub closed spec fn lines_view(&self) -> Seq<Seq<char>> {
        line_views(self.lines@)
    }

    pub closed spec fn dropped(&self) -> nat {
        self.dropped_lines as nat
    }

    pub closed spec fn wf(&self) -> bool {
        self.lines@.len() <= OUTPUT_RING_MAX_LINES
    }

    /// An empty buffer.
    pub fn new() -> (r: Self)
        ensures
            r.wf(),
            r.lines_view().len() == 0,
            r.dropped() == 0,
    {
        OutputRingBuffer { lines: VecDeque::new(), dropped_lines: 0 }
    }

    /// Number of lines held.
    pub fn len(&self) -> (n: usize)
        ensures
            n == self.lines_view().len(),
    {
        self.lines.len()
    }

    /// Number of lines that left the buffer since it was created.
    pub fn dropped_lines(&self) -> (n: usize)
        ensures
            n == self.dropped(),
    {
        self.dropped_lines
    }

    /// Appends a line, evicting the oldest one when the buffer is full.
    pub fn push(&mut self, line: String)
        requires
            old(self).wf(),
        ensures
            final(self).wf(),
            (final(self).lines_view(), final(self).dropped())
                == ring_push(old(self).lines_view(), old(self).dropped(), line@),
    {
        let ghost before = self.lines@;
        if self.lines.len() >= OUTPUT_RING_MAX_LINES {
            let _ = self.lines.pop_front();
            self.dropped_lines = self.dropped_lines.saturating_add(1);
        }
        self.lines.push_back(line);
        proof {
            if before.len() >= OUTPUT_RING_MAX_LINES {
                assert(line_views(self.lines@) =~= line_views(before).drop_first().push(line@));
            } else {
                assert(line_views(self.lines@) =~= line_views(before).push(line@));
            }
        }
    }

    /// The banner (if lines were dropped) and the last `tail_count` lines,
    /// joined by newlines; `None` when nothing was ever pushed.
    pub fn snapshot_tail(&self, tail_count: usize) -> (r: Option<String>)
        ensures
            match r {
                Some(s) => snapshot(self.lines_view(), self.dropped(), tail_count as nat) == Some(s@),
                None => snapshot(self.lines_view(), self.dropped(), tail_count as nat).is_none(),
            },
    {
        if self.lines.len() == 0 && self.dropped_lines == 0 {
            return None;
        }
        let n = self.lines.len();
        let skip: usize = if tail_count >= n { 0 } else { n - tail_count };
        let mut parts: Vec<String> = Vec::new();
        if self.dropped_lines > 0 {
            let mut banner = String::new();
            push_text(&mut banner, "... [");
            let count = render_u64(self.dropped_lines as u64);
            push_text(&mut banner, count.as_str());
            push_text(&mut banner, " earlier lines truncated]");
            parts.push(banner);
        }
        let ghost head = line_views(parts@);
        let mut i: usize = skip;
        while i < n
            invariant
                n == self.lines@.len(),
                skip <= i <= n,
                line_views(parts@) == head + self.lines_view().subrange(skip as int, i as int),
            decreases n - i,
        {
            let line: String = self.lines[i].clone();
            assert(line@ == self.lines_view()[i as int]);
            let ghost prev = parts@;
            parts.push(line);
            assert(line_views(parts@) =~= line_views(prev).push(line@));
            assert(self.lines_view().subrange(skip as int, i as int + 1)
                =~= self.lines_view().subrange(skip as int, i as int).push(line@));
            i = i + 1;
            assert(line_views(parts@) =~= head + self.lines_view().subrange(skip as int, i as int));
        }
        assert(self.lines_view().subrange(skip as int, n as int) =~= tail(self.lines_view(), tail_count as nat));
        let text = join_all(&parts);
        proof {
            if self.dropped_lines > 0 {
                assert(head =~= seq![truncation_banner(self.dropped())]);
            } else {
                assert(head =~= Seq::<Seq<char>>::empty());
                assert(line_views(parts@) =~= tail(self.lines_view(), tail_count as nat));
            }
        }
        Some(text)
    }
}

/// The parts joined with a newline between each two.
pub fn join_all(parts: &Vec<String>) -> (r: String)
    ensures
        r@ == join_lines(line_views(parts@)),
{
    let mut r = String::new();
    let mut i: usize = 0;
    while i < parts.len()
        invariant
            i <= parts@.len(),
            r@ == join_lines(line_views(parts@).take(i as int)),
        decreases parts@.len() - i,
    {
        proof {
            let v = line_views(parts@);
            assert(v.take(i as int + 1).drop_last() =~= v.take(i as int));
        }
        if i > 0 {
            push_char(&mut r, '\n');
        } else {
            assert(line_views(parts@).take(1) =~= seq![parts@[0]@]);
        }
        push_text(&mut r, parts[i].as_str());
        i = i + 1;
    }
    assert(line_views(parts@).take(parts@.len() as int) =~= line_views(parts@));
    r
}

/// Pushing `N` lines into a fresh buffer leaves the last `min(N, 240)` of
/// them, and counts every earlier one as dropped (up to `usize::MAX`).
pub proof fn lemma_ring_keeps_most_recent(pushes: Seq<Seq<char>>)
    ensures
        ring_after(pushes).0 == (if pushes.len() > OUTPUT_RING_MAX_LINES {
            pushes.subrange(pushes.len() - OUTPUT_RING_MAX_LINES, pushes.len() as int)
        } else {
            pushes
        }),
        ring_after(pushes).1 == (if pushes.len() <= OUTPUT_RING_MAX_LINES {
            0
        } else if pushes.len() - OUTPUT_RING_MAX_LINES <= usize::MAX {
            (pushes.len() - OUTPUT_RING_MAX_LINES) as nat
        } else {
            usize::MAX as nat
        }),
        ring_after(pushes).0.len() <= OUTPUT_RING_MAX_LINES,
    decreases pushes.len(),
{
    if pushes.len() > 0 {
        let rest = pushes.drop_last();
        lemma_ring_keeps_most_recent(rest);
        let n = pushes.len();
        if rest.len() >= OUTPUT_RING_MAX_LINES {
            assert(rest.subrange(rest.len() - OUTPUT_RING_MAX_LINES, rest.len() as int).drop_first().push(pushes.last())
                =~= pushes.subrange(n - OUTPUT_RING_MAX_LINES, n as int));
        } else {
            assert(rest.push(pushes.last()) =~= pushes);
        }
    }
}

/// A snapshot of a buffer that dropped lines always opens with the banner and
/// ends with the most recent `min(k, len)` lines.
pub proof fn lemma_snapshot_has_banner(lines: Seq<Seq<char>>, dropped: nat, k: nat)
    requires
        dropped > 0,
    ensures
        snapshot(lines, dropped, k) == Some(join_lines(seq![truncation_banner(dropped)] + tail(lines, k))),
        tail(lines, k).len() == if k < lines.len() { k } else { lines.len() },
        tail(lines, k) == lines.subrange(lines.len() - tail(lines, k).len(), lines.len() as int),
{
    if k >= lines.len() {
        assert(lines.subrange(0, lines.len() as int) =~= lines);
    }
}

} // verus!
