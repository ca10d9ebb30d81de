//! Replaying a whole command string through a signal chain.
//!
//! A replay always starts from a clean chain: every link is reset, the sink
//! is cleared, and the leading `up_to` characters of the command are then
//! propagated one by one. The first link error halts the replay at that
//! command index; afterwards one idle signal is propagated to clear the
//! transition markers of every link that is still healthy. Each step leaves
//! a per-link snapshot row in the trace for a renderer to consume.

use vstd::prelude::*;

use crate::chain::{SignalChain, spec_chain_step, spec_sink, spec_thread};
use crate::keypad::{Cell, Keypad, PadError, Transition};

verus! {

/// What a renderer needs to know of one link after one step.
#[derive(Clone, Copy, PartialEq, Eq, Debug)]
pub struct Snapshot {
    /// The link's cursor cell.
    pub cursor: Cell,
    /// The link's sticky error, if any.
    pub error: Option<PadError>,
    /// What the link just did.
    pub transition: Transition,
}

/// Where and why a replay halted: the failing link, the command index
/// being replayed at that moment, and the error kind the link recorded.
#[derive(Clone, Copy, PartialEq, Eq, Structural, Debug)]
pub struct Failure {
    /// Index of the first link whose error flag is set.
    pub link_index: usize,
    /// Index into the command of the character whose step failed.
    pub command_index: usize,
    /// The kind of error that link recorded.
    pub kind: PadError,
}

/// The simulator's lifecycle state.
#[derive(Clone, Copy, PartialEq, Eq, Structural, Debug)]
pub enum SimStatus {
    /// No replay has run since construction.
    Idle,
    /// The most recent replay consumed every requested character.
    Complete,
    /// The most recent replay halted at this command index.
    Halted(usize),
}

/// The snapshot taken of one link.
pub open spec fn spec_snap(k: Keypad) -> Snapshot {
    Snapshot { cursor: k.cursor, error: k.error, transition: k.transition }
}

/// One trace row: the snapshot of every link, in chain order.
pub open spec fn spec_row(links: Seq<Keypad>) -> Seq<Snapshot> {
    links.map_values(|k: Keypad| spec_snap(k))
}

/// The trace as a sequence of rows of snapshots.
pub open spec fn spec_trace_view(t: Seq<Vec<Snapshot>>) -> Seq<Seq<Snapshot>> {
    t.map_values(|r: Vec<Snapshot>| r@)
}

/// Every link reset: the chain state a replay starts from.
pub open spec fn spec_reset_links(links: Seq<Keypad>) -> Seq<Keypad> {
    links.map_values(|k: Keypad| k.spec_reset())
}

/// Index of the first link whose error flag is set, or -1 when none is.
pub open spec fn spec_first_error_idx(links: Seq<Keypad>) -> int
    decreases links.len(),
{
    if links.len() == 0 {
        -1
    } else if links[0].error is Some {
        0
    } else {
        let r = spec_first_error_idx(links.skip(1));
        if r == -1 {
            -1
        } else {
            r + 1
        }
    }
}

proof fn lemma_first_error_none(links: Seq<Keypad>)
    requires
        forall|i: int| 0 <= i < links.len() ==> (#[trigger] links[i]).error is None,
    ensures
        spec_first_error_idx(links) == -1,
    decreases links.len(),
{
    if links.len() > 0 {
        let tail = links.skip(1);
        assert forall|i: int| 0 <= i < tail.len() implies (#[trigger] tail[i]).error is None by {
            assert(tail[i] == links[i + 1]);
        }
        lemma_first_error_none(tail);
    }
}

proof fn lemma_first_error_at(links: Seq<Keypad>, j: int)
    requires
        0 <= j < links.len(),
        links[j].error is Some,
        forall|i: int| 0 <= i < j ==> (#[trigger] links[i]).error is None,
    ensures
        spec_first_error_idx(links) == j,
    decreases j,
{
    if j > 0 {
        let tail = links.skip(1);
        assert(links[0].error is None);
        assert(tail[j - 1] == links[j]);
        assert forall|i: int| 0 <= i < j - 1 implies (#[trigger] tail[i]).error is None by {
            assert(tail[i] == links[i + 1]);
        }
        lemma_first_error_at(tail, j - 1);
    }
}

/// The replay state after the leading `n` characters of `cmd` have been
/// offered to a chain whose links started as `links0` and whose sink held
/// `sink0`: the links, the sink contents, the trace rows so far, and the
/// failure record once a step has left some link in error. Steps after a
/// failure change nothing.
pub open spec fn spec_replay(
    links0: Seq<Keypad>,
    sink0: Seq<char>,
    cmd: Seq<char>,
    n: nat,
) -> (Seq<Keypad>, Seq<char>, Seq<Seq<Snapshot>>, Option<Failure>)
    decreases n,
{
    if n == 0 {
        (links0, sink0, Seq::<Seq<Snapshot>>::empty(), None)
    } else {
        let prev = spec_replay(links0, sink0, cmd, (n - 1) as nat);
        if prev.3 is Some {
            prev
        } else {
            let stepped = spec_chain_step(prev.0, Some(cmd[n - 1]));
            let links1 = stepped.0;
            let idx = spec_first_error_idx(links1);
            let fail = if idx == -1 {
                None
            } else {
                Some(
                    Failure {
                        link_index: idx as usize,
                        command_index: (n - 1) as usize,
                        kind: links1[idx].error.unwrap(),
                    },
                )
            };
            (links1, spec_sink(prev.1, stepped.1), prev.2.push(spec_row(links1)), fail)
        }
    }
}

/// The whole replay of the leading `upto` characters from the reset links
/// `links_r`, including the final idle flush and its trace row.
pub open spec fn spec_replay_full(links_r: Seq<Keypad>, cmd: Seq<char>, upto: nat) -> (
    Seq<Keypad>,
    Seq<char>,
    Seq<Seq<Snapshot>>,
    Option<Failure>,
) {
    let r = spec_replay(links_r, Seq::<char>::empty(), cmd, upto);
    let fl = spec_chain_step(r.0, None);
    (fl.0, spec_sink(r.1, fl.1), r.2.push(spec_row(fl.0)), r.3)
}

/// Once a replay has failed, offering further characters changes nothing.
pub proof fn lemma_replay_stable(
    links0: Seq<Keypad>,
    sink0: Seq<char>,
    cmd: Seq<char>,
    m: nat,
    n: nat,
)
    requires
        m <= n,
        spec_replay(links0, sink0, cmd, m).3 is Some,
    ensures
        spec_replay(links0, sink0, cmd, n) == spec_replay(links0, sink0, cmd, m),
    decreases n,
{
    if n > m {
        lemma_replay_stable(links0, sink0, cmd, m, (n - 1) as nat);
    }
}

/// One chain step keeps every link's kind and label.
proof fn lemma_chain_step_preserves(links: Seq<Keypad>, msig: Option<char>)
    requires
        links.len() >= 1,
    ensures
        spec_chain_step(links, msig).0.len() == links.len(),
        forall|j: int|
            0 <= j < links.len() ==> (#[trigger] spec_chain_step(links, msig).0[j]).pad_type
                == links[j].pad_type && spec_chain_step(links, msig).0[j].name == links[j].name,
{
    let first = crate::chain::spec_chain_first(links[0], msig);
    crate::chain::lemma_thread_props(links.skip(1), first.1);
    assert forall|j: int|
        0 <= j < links.len() implies (#[trigger] spec_chain_step(links, msig).0[j]).pad_type
        == links[j].pad_type && spec_chain_step(links, msig).0[j].name == links[j].name by {
        if j == 0 {
            assert(spec_chain_step(links, msig).0[0] == first.0);
        } else {
            assert(spec_chain_step(links, msig).0[j] == spec_thread(links.skip(1), first.1).0[j
                - 1]);
            assert(links.skip(1)[j - 1] == links[j]);
        }
    }
}

/// A replay keeps every link's kind and label, whatever the command.
proof fn lemma_replay_preserves(links0: Seq<Keypad>, sink0: Seq<char>, cmd: Seq<char>, n: nat)
    requires
        links0.len() >= 1,
    ensures
        spec_replay(links0, sink0, cmd, n).0.len() == links0.len(),
        forall|j: int|
            0 <= j < links0.len() ==> (#[trigger] spec_replay(links0, sink0, cmd, n).0[j]).pad_type
                == links0[j].pad_type && spec_replay(links0, sink0, cmd, n).0[j].name
                == links0[j].name,
    decreases n,
{
    if n > 0 {
        lemma_replay_preserves(links0, sink0, cmd, (n - 1) as nat);
        let prev = spec_replay(links0, sink0, cmd, (n - 1) as nat);
        if prev.3 is None {
            lemma_chain_step_preserves(prev.0, Some(cmd[n - 1]));
        }
    }
}

/// A full replay, idle flush included, keeps every link's kind and label.
proof fn lemma_replay_full_preserves(links_r: Seq<Keypad>, cmd: Seq<char>, upto: nat)
    requires
        links_r.len() >= 1,
    ensures
        spec_replay_full(links_r, cmd, upto).0.len() == links_r.len(),
        forall|j: int|
            0 <= j < links_r.len() ==> (#[trigger] spec_replay_full(links_r, cmd, upto).0[
                j]).pad_type == links_r[j].pad_type && spec_replay_full(links_r, cmd, upto).0[
                j].name == links_r[j].name,
{
    lemma_replay_preserves(links_r, Seq::<char>::empty(), cmd, upto);
    let r = spec_replay(links_r, Seq::<char>::empty(), cmd, upto);
    lemma_chain_step_preserves(r.0, None);
}

/// Scrubbing is deterministic: replaying the same leading command slice a
/// second time, starting from whatever chain state the first replay left
/// behind, yields exactly the same links, sink contents, trace and failure
/// record as the first replay. No hidden state survives a replay.
pub proof fn lemma_replay_deterministic(links: Seq<Keypad>, cmd: Seq<char>, upto: nat)
    requires
        links.len() >= 1,
    ensures
        spec_replay_full(
            spec_reset_links(spec_replay_full(spec_reset_links(links), cmd, upto).0),
            cmd,
            upto,
        ) == spec_replay_full(spec_reset_links(links), cmd, upto),
{
    let r0 = spec_reset_links(links);
    let after = spec_replay_full(r0, cmd, upto).0;
    lemma_replay_full_preserves(r0, cmd, upto);
    assert(spec_reset_links(after) =~= r0) by {
        assert forall|j: int| 0 <= j < r0.len() implies spec_reset_links(after)[j] == r0[j] by {
            assert(spec_reset_links(after)[j] == after[j].spec_reset());
            assert(after[j].pad_type == r0[j].pad_type && after[j].name == r0[j].name);
            assert(r0[j] == links[j].spec_reset());
        }
    }
}

/// Copies the characters of a command so the simulator can keep them.
fn copy_chars(src: &Vec<char>) -> (r: Vec<char>)
    ensures
        r@ == src@,
{
    let mut r: Vec<char> = Vec::new();
    let n = src.len();
    let mut i: usize = 0;
    while i < n
        invariant
            0 <= i <= n,
            n == src@.len(),
            r@ == src@.take(i as int),
        decreases n - i,
    {
        r.push(src[i]);
        proof {
            assert(r@ =~= src@.take(i + 1));
        }
        i += 1;
    }
    proof {
        assert(src@.take(n as int) =~= src@);
    }
    r
}

/// Takes the per-link snapshot row of the current chain state.
fn snapshot_row(links: &Vec<Keypad>) -> (r: Vec<Snapshot>)
    ensures
        r@ == spec_row(links@),
{
    let mut r: Vec<Snapshot> = Vec::new();
    let n = links.len();
    let mut i: usize = 0;
    while i < n
        invariant
            0 <= i <= n,
            n == links@.len(),
            r@.len() == i,
            forall|j: int| 0 <= j < i ==> r@[j] == spec_snap(links@[j]),
        decreases n - i,
    {
        let k = &links[i];
        r.push(Snapshot { cursor: k.cursor, error: k.error, transition: k.transition });
        i += 1;
    }
    proof {
        assert(r@ =~= spec_row(links@));
    }
    r
}

/// Finds the first link in error, with its error kind.
fn first_error(links: &Vec<Keypad>) -> (r: Option<(usize, PadError)>)
    ensures
        (match r {
            Some(p) => p.0 < links@.len() && links@[p.0 as int].error == Some(p.1)
                && spec_first_error_idx(links@) == p.0,
            None => spec_first_error_idx(links@) == -1,
        }),
{
    let n = links.len();
    let mut j: usize = 0;
    while j < n
        invariant
            0 <= j <= n,
            n == links@.len(),
            forall|i: int| 0 <= i < j ==> (#[trigger] links@[i]).error is None,
        decreases n - j,
    {
        match links[j].error {
            Some(kind) => {
                proof {
                    lemma_first_error_at(links@, j as int);
                }
                return Some((j, kind));
            },
            None => {},
        }
        j += 1;
    }
    proof {
        lemma_first_error_none(links@);
    }
    None
}

/// Replays a command string through a signal chain from a clean state,
/// exposing the accumulated output, a step-indexed trace and the point of
/// failure, if any.
pub struct ChainSimulator {
    /// The chain under test.
    pub chain: SignalChain,
    /// The command of the most recent replay.
    pub command: Vec<char>,
    /// How many leading characters of the command were consumed.
    pub cursor_into_command: usize,
    /// One row of per-link snapshots per step, the idle flush included.
    pub trace: Vec<Vec<Snapshot>>,
    /// Where and why the most recent replay halted, if it did.
    pub failure: Option<Failure>,
    /// The simulator's lifecycle state.
    pub status: SimStatus,
}

impl ChainSimulator {
    /// The simulator invariant: its chain is well-formed.
    pub open spec fn wf(self) -> bool {
        self.chain.wf()
    }

    /// Wraps a chain, ready to replay.
    pub fn new(chain: SignalChain) -> (s: ChainSimulator)
        requires
            chain.wf(),
        ensures
            s.wf(),
            s.chain == chain,
            s.command@ == Seq::<char>::empty(),
            s.cursor_into_command == 0,
            s.trace@ == Seq::<Vec<Snapshot>>::empty(),
            s.failure is None,
            s.status == SimStatus::Idle,
    {
        ChainSimulator {
            chain,
            command: Vec::new(),
            cursor_into_command: 0,
            trace: Vec::new(),
            failure: None,
            status: SimStatus::Idle,
        }
    }

    /// Resets every link and the sink, then propagates the leading `up_to`
    /// characters of `command` one by one, halting at the first character
    /// whose step leaves any link in error; finally propagates one idle
    /// signal. The result is exactly `spec_replay_full` of the reset links:
    /// prior simulator state is discarded entirely, so the outcome is a
    /// function of the chain's composition and the arguments alone.
    pub fn replay(&mut self, command: &Vec<char>, up_to: usize)
        requires
            old(self).wf(),
            up_to <= command@.len(),
        ensures
            final(self).wf(),
            final(self).command@ == command@,
            final(self).chain.links@ == spec_replay_full(
                spec_reset_links(old(self).chain.links@),
                command@,
                up_to as nat,
            ).0,
            final(self).chain.sink.text@ == spec_replay_full(
                spec_reset_links(old(self).chain.links@),
                command@,
                up_to as nat,
            ).1,
            spec_trace_view(final(self).trace@) == spec_replay_full(
                spec_reset_links(old(self).chain.links@),
                command@,
                up_to as nat,
            ).2,
            final(self).failure == spec_replay_full(
                spec_reset_links(old(self).chain.links@),
                command@,
                up_to as nat,
            ).3,
            final(self).chain.sink.name == old(self).chain.sink.name,
            final(self).cursor_into_command == (match final(self).failure {
                Some(f) => f.command_index + 1,
                None => up_to as int,
            }),
            final(self).status == (match final(self).failure {
                Some(f) => SimStatus::Halted(f.command_index),
                None => SimStatus::Complete,
            }),
    {
        self.chain.reset();
        proof {
            assert(self.chain.links@ =~= spec_reset_links(old(self).chain.links@));
        }
        let ghost links_r = self.chain.links@;
        self.command = copy_chars(command);
        self.trace = Vec::new();
        self.failure = None;
        proof {
            assert(spec_trace_view(Seq::<Vec<Snapshot>>::empty()) =~= Seq::<Seq<
                Snapshot,
            >>::empty());
        }
        let mut idx: usize = 0;
        while idx < up_to && self.failure.is_none()
            invariant
                0 <= idx <= up_to,
                up_to <= command@.len(),
                self.chain.wf(),
                links_r == spec_reset_links(old(self).chain.links@),
                links_r.len() >= 1,
                self.chain.links@ == spec_replay(
                    links_r,
                    Seq::<char>::empty(),
                    command@,
                    idx as nat,
                ).0,
                self.chain.sink.text@ == spec_replay(
                    links_r,
                    Seq::<char>::empty(),
                    command@,
                    idx as nat,
                ).1,
                spec_trace_view(self.trace@) == spec_replay(
                    links_r,
                    Seq::<char>::empty(),
                    command@,
                    idx as nat,
                ).2,
                self.failure == spec_replay(links_r, Seq::<char>::empty(), command@, idx as nat).3,
                self.failure matches Some(f) ==> f.command_index + 1 == idx,
                self.chain.sink.name == old(self).chain.sink.name,
                self.command@ == command@,
            decreases up_to - idx,
        {
            let ghost prev = spec_replay(links_r, Seq::<char>::empty(), command@, idx as nat);
            let c = command[idx];
            self.chain.propagate(Some(c));
            let row = snapshot_row(&self.chain.links);
            self.trace.push(row);
            proof {
                assert(spec_trace_view(self.trace@) =~= prev.2.push(spec_row(self.chain.links@)));
            }
            match first_error(&self.chain.links) {
                Some(p) => {
                    self.failure = Some(
                        Failure { link_index: p.0, command_index: idx, kind: p.1 },
                    );
                },
                None => {},
            }
            idx += 1;
        }
        proof {
            if self.failure is Some {
                lemma_replay_stable(
                    links_r,
                    Seq::<char>::empty(),
                    command@,
                    idx as nat,
                    up_to as nat,
                );
            }
        }
        let ghost steps = spec_replay(links_r, Seq::<char>::empty(), command@, up_to as nat);
        self.chain.propagate(None);
        let row = snapshot_row(&self.chain.links);
        self.trace.push(row);
        proof {
            assert(spec_trace_view(self.trace@) =~= steps.2.push(spec_row(self.chain.links@)));
        }
        self.cursor_into_command = idx;
        self.status = match self.failure {
            Some(f) => SimStatus::Halted(f.command_index),
            None => SimStatus::Complete,
        };
    }
}

} // verus!
