//! The process supervisor: a state machine that probes the candidate backend
//! directories in priority order and launches the backend with a two-step
//! command fallback.
//!
//! The machine decides; the caller performs. At every non-terminal state the
//! pending action names the one piece of outside work to do next — probe a
//! candidate for the entry-point file, or attempt a spawn — and the caller
//! answers with the event that reports how it went. Every failure degrades
//! to the next option: a missing entry point skips the candidate, a failed
//! primary spawn falls back to the secondary command, a failed secondary
//! moves on to the next candidate. The machine finishes with the first
//! successfully started handle, or with nothing once every option is
//! exhausted — and in that case, and only that case, it owes the caller one
//! diagnostic line.

use vstd::prelude::*;

verus! {

use crate::command::Launcher;

/// A handle to a spawned backend process, as the caller names it.
pub type HandleId = u64;

/// Where the supervisor stands.
#[derive(Clone, Copy, Debug, PartialEq, Eq)]
pub enum SupervisorState {
    /// The candidate at `idx` is next to be probed for the entry-point file.
    Probing { idx: usize },
    /// The candidate at `idx` holds the entry-point file; the given launch
    /// command is being attempted there.
    Launching { idx: usize, launcher: Launcher },
    /// Terminal: the supervisor produced a live handle, or nothing.
    Finished { handle: Option<HandleId> },
}

/// What the caller reports back after performing the pending action.
#[derive(Clone, Copy, Debug, PartialEq, Eq)]
pub enum SupervisorEvent {
    /// Whether the probed candidate directory contains the entry-point file.
    EntryPoint { present: bool },
    /// The outcome of a spawn attempt: the new process's handle, or nothing
    /// when the command failed to start.
    SpawnResult { handle: Option<HandleId> },
}

/// What the caller must do next.
#[derive(Clone, Copy, Debug, PartialEq, Eq)]
pub enum SupervisorAction {
    /// Check whether the candidate directory at `idx` contains the
    /// entry-point file, and answer with `EntryPoint`.
    CheckEntryPoint { idx: usize },
    /// Spawn the given launch command with the candidate directory at `idx`
    /// as working directory, and answer with `SpawnResult`.
    Spawn { idx: usize, launcher: Launcher },
    /// The run is over. When `diagnose` holds — exactly when no handle was
    /// produced — the caller emits the single diagnostic line.
    Done { handle: Option<HandleId>, diagnose: bool },
}

/// A state is well formed for a candidate count `n` when any index it holds
/// points at a candidate.
pub open spec fn state_wf(n: nat, s: SupervisorState) -> bool {
    match s {
        SupervisorState::Probing { idx } => idx < n,
        SupervisorState::Launching { idx, launcher } => idx < n,
        SupervisorState::Finished { handle } => true,
    }
}

/// Which events answer which states: a probe answer while probing, a spawn
/// outcome while launching, and nothing once finished — the terminal state
/// admits no transition back.
pub open spec fn event_fits(s: SupervisorState, ev: SupervisorEvent) -> bool {
    match s {
        SupervisorState::Probing { idx } => ev is EntryPoint,
        SupervisorState::Launching { idx, launcher } => ev is SpawnResult,
        SupervisorState::Finished { handle } => false,
    }
}

/// Where a run starts: probing the first candidate, or already finished
/// empty when there are no candidates at all.
pub open spec fn initial_state(n: nat) -> SupervisorState {
    if n == 0 {
        SupervisorState::Finished { handle: None }
    } else {
        SupervisorState::Probing { idx: 0 }
    }
}

/// The transition function. Meaningful when the state is well formed for `n`
/// and the event fits it; any other pair is left in place.
pub open spec fn next_state(n: nat, s: SupervisorState, ev: SupervisorEvent) -> SupervisorState {
    match (s, ev) {
        (
            SupervisorState::Probing { idx },
            SupervisorEvent::EntryPoint { present },
        ) => {
            if present {
                SupervisorState::Launching { idx, launcher: Launcher::Primary }
            } else if idx + 1 < n {
                SupervisorState::Probing { idx: (idx + 1) as usize }
            } else {
                SupervisorState::Finished { handle: None }
            }
        },
        (
            SupervisorState::Launching { idx, launcher: Launcher::Primary },
            SupervisorEvent::SpawnResult { handle },
        ) => {
            match handle {
                Some(h) => SupervisorState::Finished { handle: Some(h) },
                None => SupervisorState::Launching { idx, launcher: Launcher::Secondary },
            }
        },
        (
            SupervisorState::Launching { idx, launcher: Launcher::Secondary },
            SupervisorEvent::SpawnResult { handle },
        ) => {
            match handle {
                Some(h) => SupervisorState::Finished { handle: Some(h) },
                None => {
                    if idx + 1 < n {
                        SupervisorState::Probing { idx: (idx + 1) as usize }
                    } else {
                        SupervisorState::Finished { handle: None }
                    }
                },
            }
        },
        (same, _) => same,
    }
}

/// The action a state calls for.
pub open spec fn pending_action(s: SupervisorState) -> SupervisorAction {
    match s {
        SupervisorState::Probing { idx } => SupervisorAction::CheckEntryPoint { idx },
        SupervisorState::Launching { idx, launcher } => SupervisorAction::Spawn { idx, launcher },
        SupervisorState::Finished { handle } => SupervisorAction::Done {
            handle,
            diagnose: handle is None,
        },
    }
}

/// A whole run: the state reached after answering with the given events in
/// order.
pub open spec fn run(n: nat, s: SupervisorState, evs: Seq<SupervisorEvent>) -> SupervisorState
    decreases evs.len(),
{
    if evs.len() == 0 {
        s
    } else {
        run(n, next_state(n, s, evs[0]), evs.subrange(1, evs.len() as int))
    }
}

/// The process supervisor: the candidate directories it was configured with,
/// in priority order, and where it stands.
pub struct Supervisor {
    pub candidates: Vec<String>,
    pub state: SupervisorState,
}

impl Supervisor {
    /// The number of candidate directories.
    pub open spec fn n(&self) -> nat {
        self.candidates@.len()
    }

    /// The supervisor's state is well formed for its candidate count.
    pub open spec fn wf(&self) -> bool {
        state_wf(self.n(), self.state)
    }

    /// Configure a supervisor over the given candidate directories, standing
    /// at the initial state.
    pub fn new(candidates: Vec<String>) -> (s: Supervisor)
        ensures
            s.candidates == candidates,
            s.state == initial_state(candidates@.len()),
            s.wf(),
    {
        let state = if candidates.len() == 0 {
            SupervisorState::Finished { handle: None }
        } else {
            SupervisorState::Probing { idx: 0 }
        };
        Supervisor { candidates, state }
    }

    /// The one piece of outside work the caller must do next, or the final
    /// outcome.
    pub fn pending(&self) -> (a: SupervisorAction)
        ensures
            a == pending_action(self.state),
    {
        match self.state {
            SupervisorState::Probing { idx } => SupervisorAction::CheckEntryPoint { idx },
            SupervisorState::Launching { idx, launcher } => SupervisorAction::Spawn {
                idx,
                launcher,
            },
            SupervisorState::Finished { handle } => SupervisorAction::Done {
                handle,
                diagnose: handle.is_none(),
            },
        }
    }

    /// Advance by one answered action. The candidate list never changes, and
    /// the new state is exactly what the transition function gives.
    pub fn step(&mut self, ev: SupervisorEvent)
        requires
            old(self).wf(),
            event_fits(old(self).state, ev),
        ensures
            final(self).candidates == old(self).candidates,
            final(self).state == next_state(old(self).n(), old(self).state, ev),
            final(self).wf(),
    {
        let n: usize = self.candidates.len();
        let next = match (self.state, ev) {
            (
                SupervisorState::Probing { idx },
                SupervisorEvent::EntryPoint { present },
            ) => {
                if present {
                    SupervisorState::Launching { idx, launcher: Launcher::Primary }
                } else if idx + 1 < n {
                    SupervisorState::Probing { idx: idx + 1 }
                } else {
                    SupervisorState::Finished { handle: None }
                }
            },
            (
                SupervisorState::Launching { idx, launcher: Launcher::Primary },
                SupervisorEvent::SpawnResult { handle },
            ) => {
                match handle {
                    Some(h) => SupervisorState::Finished { handle: Some(h) },
                    None => SupervisorState::Launching {
                        idx,
                        launcher: Launcher::Secondary,
                    },
                }
            },
            (
                SupervisorState::Launching { idx, launcher: Launcher::Secondary },
                SupervisorEvent::SpawnResult { handle },
            ) => {
                match handle {
                    Some(h) => SupervisorState::Finished { handle: Some(h) },
                    None => {
                        if idx + 1 < n {
                            SupervisorState::Probing { idx: idx + 1 }
                        } else {
                            SupervisorState::Finished { handle: None }
                        }
                    },
                }
            },
            (same, _) => same,
        };
        self.state = next;
    }
}

/// From probing position `idx` on, with every remaining candidate answering
/// that the entry-point file is absent, the run ends finished and empty.
proof fn lemma_absent_tail_finishes_empty(n: nat, idx: usize, evs: Seq<SupervisorEvent>)
    requires
        n <= usize::MAX,
        idx < n,
        evs.len() == n - idx,
        forall|k: int|
            0 <= k < evs.len() ==> evs[k] == (SupervisorEvent::EntryPoint { present: false }),
    ensures
        run(n, SupervisorState::Probing { idx }, evs) == (SupervisorState::Finished {
            handle: None::<HandleId>,
        }),
    decreases n - idx,
{
    let s1 = next_state(n, SupervisorState::Probing { idx }, evs[0]);
    let rest = evs.subrange(1, evs.len() as int);
    if idx + 1 < n {
        assert(s1 == (SupervisorState::Probing { idx: (idx + 1) as usize }));
        lemma_absent_tail_finishes_empty(n, (idx + 1) as usize, rest);
    } else {
        assert(s1 == (SupervisorState::Finished { handle: None::<HandleId> }));
        assert(rest.len() == 0);
        assert(run(n, s1, rest) == s1);
    }
    assert(run(n, SupervisorState::Probing { idx }, evs) == run(n, s1, rest));
}

/// Law: when no candidate directory contains the entry-point file, the
/// supervisor finishes with no handle, and the one diagnostic line is owed:
/// the final pending action reports no handle and asks for the diagnostic.
pub proof fn lemma_no_entry_point_yields_nothing(n: nat, evs: Seq<SupervisorEvent>)
    requires
        n <= usize::MAX,
        evs.len() == n,
        forall|k: int|
            0 <= k < evs.len() ==> evs[k] == (SupervisorEvent::EntryPoint { present: false }),
    ensures
        run(n, initial_state(n), evs) == (SupervisorState::Finished { handle: None::<HandleId> }),
        pending_action(run(n, initial_state(n), evs)) == (SupervisorAction::Done {
            handle: None::<HandleId>,
            diagnose: true,
        }),
{
    if n > 0 {
        lemma_absent_tail_finishes_empty(n, 0, evs);
    }
}

/// The probe answers for candidates `0` through `i`, as the events they
/// produce: one entry-point answer per candidate, read off the presence
/// list.
pub open spec fn probe_events(present: Seq<bool>, i: int) -> Seq<SupervisorEvent> {
    Seq::new((i + 1) as nat, |k: int| SupervisorEvent::EntryPoint { present: present[k] })
}

/// From probing position `idx` on, with the entry-point file absent up to
/// candidate `i` exclusive and present at `i`, the run reaches the primary
/// launch attempt at `i`.
proof fn lemma_probe_reaches_first_present(n: nat, idx: usize, i: int, evs: Seq<SupervisorEvent>)
    requires
        n <= usize::MAX,
        idx <= i < n,
        evs.len() == i + 1 - idx,
        forall|k: int|
            0 <= k < evs.len() ==> evs[k] == (SupervisorEvent::EntryPoint {
                present: (idx + k == i),
            }),
    ensures
        run(n, SupervisorState::Probing { idx }, evs) == (SupervisorState::Launching {
            idx: i as usize,
            launcher: Launcher::Primary,
        }),
    decreases i - idx,
{
    let s1 = next_state(n, SupervisorState::Probing { idx }, evs[0]);
    let rest = evs.subrange(1, evs.len() as int);
    if idx == i {
        assert(s1 == (SupervisorState::Launching {
            idx: i as usize,
            launcher: Launcher::Primary,
        }));
        assert(rest.len() == 0);
        assert(run(n, s1, rest) == s1);
    } else {
        assert(s1 == (SupervisorState::Probing { idx: (idx + 1) as usize }));
        assert(forall|k: int|
            0 <= k < rest.len() ==> rest[k] == (SupervisorEvent::EntryPoint {
                present: (idx + 1 + k == i),
            }));
        lemma_probe_reaches_first_present(n, (idx + 1) as usize, i, rest);
    }
    assert(run(n, SupervisorState::Probing { idx }, evs) == run(n, s1, rest));
}

/// Law: when candidate `i` contains the entry-point file and every earlier
/// candidate does not, the first spawn attempt targets candidate `i` — and
/// targets it with the primary command.
pub proof fn lemma_first_spawn_targets_first_present(present: Seq<bool>, i: int)
    requires
        present.len() <= usize::MAX,
        0 <= i < present.len(),
        present[i],
        forall|j: int| 0 <= j < i ==> !present[j],
    ensures
        run(present.len(), initial_state(present.len()), probe_events(present, i))
            == (SupervisorState::Launching { idx: i as usize, launcher: Launcher::Primary }),
        pending_action(run(present.len(), initial_state(present.len()), probe_events(present, i)))
            == (SupervisorAction::Spawn { idx: i as usize, launcher: Launcher::Primary }),
{
    let evs = probe_events(present, i);
    assert(forall|k: int|
        0 <= k < evs.len() ==> evs[k] == (SupervisorEvent::EntryPoint { present: (k == i) }));
    lemma_probe_reaches_first_present(present.len(), 0, i, evs);
}

/// The handle a run produces against a fully described environment:
/// `present[c]` says whether candidate `c` holds the entry-point file, and
/// `primary[c]` and `secondary[c]` what each spawn attempt there would
/// return. The result is the first launch that would succeed, in candidate
/// priority order, primary command before secondary.
pub open spec fn outcome(
    present: Seq<bool>,
    primary: Seq<Option<HandleId>>,
    secondary: Seq<Option<HandleId>>,
) -> Option<HandleId>
    decreases present.len(),
{
    if present.len() == 0 {
        None
    } else if !present[0] {
        outcome(present.drop_first(), primary.drop_first(), secondary.drop_first())
    } else if primary[0] is Some {
        primary[0]
    } else if secondary[0] is Some {
        secondary[0]
    } else {
        outcome(present.drop_first(), primary.drop_first(), secondary.drop_first())
    }
}

/// The events that same environment answers, in the order the supervisor
/// asks: a probe answer per candidate reached, and a spawn outcome per
/// attempt made.
pub open spec fn env_events(
    present: Seq<bool>,
    primary: Seq<Option<HandleId>>,
    secondary: Seq<Option<HandleId>>,
) -> Seq<SupervisorEvent>
    decreases present.len(),
{
    if present.len() == 0 {
        Seq::empty()
    } else if !present[0] {
        seq![SupervisorEvent::EntryPoint { present: false }] + env_events(
            present.drop_first(),
            primary.drop_first(),
            secondary.drop_first(),
        )
    } else if primary[0] is Some {
        seq![
            SupervisorEvent::EntryPoint { present: true },
            SupervisorEvent::SpawnResult { handle: primary[0] },
        ]
    } else if secondary[0] is Some {
        seq![
            SupervisorEvent::EntryPoint { present: true },
            SupervisorEvent::SpawnResult { handle: None },
            SupervisorEvent::SpawnResult { handle: secondary[0] },
        ]
    } else {
        seq![
            SupervisorEvent::EntryPoint { present: true },
            SupervisorEvent::SpawnResult { handle: None },
            SupervisorEvent::SpawnResult { handle: None },
        ] + env_events(present.drop_first(), primary.drop_first(), secondary.drop_first())
    }
}

/// From probing position `idx` on, the run against an environment finishes
/// with exactly that environment's outcome over the remaining candidates.
proof fn lemma_run_tail(
    n: nat,
    idx: usize,
    present: Seq<bool>,
    primary: Seq<Option<HandleId>>,
    secondary: Seq<Option<HandleId>>,
)
    requires
        n <= usize::MAX,
        idx < n,
        present.len() == n - idx,
        primary.len() == n - idx,
        secondary.len() == n - idx,
    ensures
        run(n, SupervisorState::Probing { idx }, env_events(present, primary, secondary))
            == (SupervisorState::Finished { handle: outcome(present, primary, secondary) }),
    decreases n - idx,
{
    let evs = env_events(present, primary, secondary);
    let pr = present.drop_first();
    let pm = primary.drop_first();
    let sc = secondary.drop_first();
    let tail_evs = env_events(pr, pm, sc);
    let s0 = SupervisorState::Probing { idx };
    if !present[0] {
        let s1 = next_state(n, s0, evs[0]);
        assert(evs[0] == (SupervisorEvent::EntryPoint { present: false }));
        assert(evs.subrange(1, evs.len() as int) =~= tail_evs);
        if idx + 1 < n {
            assert(s1 == (SupervisorState::Probing { idx: (idx + 1) as usize }));
            lemma_run_tail(n, (idx + 1) as usize, pr, pm, sc);
        } else {
            assert(s1 == (SupervisorState::Finished { handle: None::<HandleId> }));
            assert(tail_evs.len() == 0);
            assert(outcome(pr, pm, sc) is None);
        }
        assert(run(n, s0, evs) == run(n, s1, evs.subrange(1, evs.len() as int)));
    } else if primary[0] is Some {
        let s1 = next_state(n, s0, evs[0]);
        let evs1 = evs.subrange(1, evs.len() as int);
        let s2 = next_state(n, s1, evs1[0]);
        let evs2 = evs1.subrange(1, evs1.len() as int);
        assert(s1 == (SupervisorState::Launching { idx, launcher: Launcher::Primary }));
        assert(evs1[0] == (SupervisorEvent::SpawnResult { handle: primary[0] }));
        assert(s2 == (SupervisorState::Finished { handle: primary[0] }));
        assert(evs2.len() == 0);
        assert(run(n, s0, evs) == run(n, s1, evs1));
        assert(run(n, s1, evs1) == run(n, s2, evs2));
    } else if secondary[0] is Some {
        let s1 = next_state(n, s0, evs[0]);
        let evs1 = evs.subrange(1, evs.len() as int);
        let s2 = next_state(n, s1, evs1[0]);
        let evs2 = evs1.subrange(1, evs1.len() as int);
        let s3 = next_state(n, s2, evs2[0]);
        let evs3 = evs2.subrange(1, evs2.len() as int);
        assert(s1 == (SupervisorState::Launching { idx, launcher: Launcher::Primary }));
        assert(evs1[0] == (SupervisorEvent::SpawnResult { handle: None::<HandleId> }));
        assert(s2 == (SupervisorState::Launching { idx, launcher: Launcher::Secondary }));
        assert(evs2[0] == (SupervisorEvent::SpawnResult { handle: secondary[0] }));
        assert(s3 == (SupervisorState::Finished { handle: secondary[0] }));
        assert(evs3.len() == 0);
        assert(run(n, s0, evs) == run(n, s1, evs1));
        assert(run(n, s1, evs1) == run(n, s2, evs2));
        assert(run(n, s2, evs2) == run(n, s3, evs3));
    } else {
        let s1 = next_state(n, s0, evs[0]);
        let evs1 = evs.subrange(1, evs.len() as int);
        let s2 = next_state(n, s1, evs1[0]);
        let evs2 = evs1.subrange(1, evs1.len() as int);
        let s3 = next_state(n, s2, evs2[0]);
        let evs3 = evs2.subrange(1, evs2.len() as int);
        assert(s1 == (SupervisorState::Launching { idx, launcher: Launcher::Primary }));
        assert(evs1[0] == (SupervisorEvent::SpawnResult { handle: None::<HandleId> }));
        assert(s2 == (SupervisorState::Launching { idx, launcher: Launcher::Secondary }));
        assert(evs2[0] == (SupervisorEvent::SpawnResult { handle: None::<HandleId> }));
        assert(evs3 =~= tail_evs);
        if idx + 1 < n {
            assert(s3 == (SupervisorState::Probing { idx: (idx + 1) as usize }));
            lemma_run_tail(n, (idx + 1) as usize, pr, pm, sc);
        } else {
            assert(s3 == (SupervisorState::Finished { handle: None::<HandleId> }));
            assert(tail_evs.len() == 0);
            assert(outcome(pr, pm, sc) is None);
        }
        assert(run(n, s0, evs) == run(n, s1, evs1));
        assert(run(n, s1, evs1) == run(n, s2, evs2));
        assert(run(n, s2, evs2) == run(n, s3, evs3));
    }
}

/// Law: against any environment, a full run from the initial state finishes
/// with exactly that environment's outcome — the handle of the first launch
/// that succeeds, in candidate priority order, primary command before
/// secondary, and nothing when every option is exhausted.
pub proof fn lemma_run_computes_outcome(
    present: Seq<bool>,
    primary: Seq<Option<HandleId>>,
    secondary: Seq<Option<HandleId>>,
)
    requires
        present.len() <= usize::MAX,
        primary.len() == present.len(),
        secondary.len() == present.len(),
    ensures
        run(
            present.len(),
            initial_state(present.len()),
            env_events(present, primary, secondary),
        ) == (SupervisorState::Finished { handle: outcome(present, primary, secondary) }),
{
    if present.len() > 0 {
        lemma_run_tail(present.len(), 0, present, primary, secondary);
    }
}

/// Law: the finished state is terminal. No event fits it, so a run never
/// leaves it: the outcome is delivered once, and with it the diagnostic when
/// one is owed.
pub proof fn lemma_finished_is_terminal(handle: Option<HandleId>, ev: SupervisorEvent)
    ensures
        !event_fits(SupervisorState::Finished { handle }, ev),
{
}

/// Law: when the primary launch fails to spawn and the secondary succeeds,
/// the supervisor finishes with exactly the handle the secondary produced.
pub proof fn lemma_secondary_handle_is_returned(n: nat, idx: usize, h: HandleId)
    ensures
        next_state(
            n,
            next_state(
                n,
                SupervisorState::Launching { idx, launcher: Launcher::Primary },
                SupervisorEvent::SpawnResult { handle: None },
            ),
            SupervisorEvent::SpawnResult { handle: Some(h) },
        ) == (SupervisorState::Finished { handle: Some(h) }),
{
}

} // verus!
