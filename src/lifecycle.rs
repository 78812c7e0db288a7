//! Lifecycle phases, the per-phase lists of systems, and the decisions of
//! the frame loop.
//!
//! The loop is a state machine: `step` takes where the loop stands and the
//! scene's running flag, and says what to do next. Whoever drives the loop
//! performs the action (runs a phase's systems, ticks the timers, advances
//! the clock) and asks again, until the action is `Exit`. The flag is read
//! only at the top of an iteration, so an iteration that has begun always
//! completes.
use vstd::prelude::*;

verus! {

#[derive(Debug, Clone, Copy, PartialEq, Eq, Hash, Structural)]
pub enum LifetimeSystemExec {
    OnBegin,
    OnUpdate,
    OnFinish,
}

/// Where the frame loop stands.
#[derive(Debug, Clone, Copy, PartialEq, Eq, Structural)]
pub enum Stage {
    /// Nothing has run yet.
    Ready,
    /// At the top of an iteration, where the running flag is read.
    LoopTop,
    /// This iteration's timers have been ticked.
    TimersTicked,
    /// This iteration's update systems have run.
    Updated,
    /// The finish systems have run.
    Finished,
}

/// What the driver of the loop does next.
#[derive(Debug, Clone, Copy, PartialEq, Eq, Structural)]
pub enum RunAction {
    /// Run the read-only, then the mutating systems of the phase, each list
    /// in registration order.
    RunSystems(LifetimeSystemExec),
    /// Tick the timers by the clock's last frame delta.
    TickTimers,
    /// Advance the clock.
    AdvanceClock,
    /// Leave the loop.
    Exit,
}

/// The next stage and the action that leads to it.
pub open spec fn spec_step(stage: Stage, running: bool) -> (Stage, RunAction) {
    match stage {
        Stage::Ready => (Stage::LoopTop, RunAction::RunSystems(LifetimeSystemExec::OnBegin)),
        Stage::LoopTop => if running {
            (Stage::TimersTicked, RunAction::TickTimers)
        } else {
            (Stage::Finished, RunAction::RunSystems(LifetimeSystemExec::OnFinish))
        },
        Stage::TimersTicked => (Stage::Updated, RunAction::RunSystems(LifetimeSystemExec::OnUpdate)),
        Stage::Updated => (Stage::LoopTop, RunAction::AdvanceClock),
        Stage::Finished => (Stage::Finished, RunAction::Exit),
    }
}

/// One decision of the frame loop.
pub fn step(stage: Stage, running: bool) -> (r: (Stage, RunAction))
    ensures
        r == spec_step(stage, running),
{
    match stage {
        Stage::Ready => (Stage::LoopTop, RunAction::RunSystems(LifetimeSystemExec::OnBegin)),
        Stage::LoopTop => {
            if running {
                (Stage::TimersTicked, RunAction::TickTimers)
            } else {
                (Stage::Finished, RunAction::RunSystems(LifetimeSystemExec::OnFinish))
            }
        },
        Stage::TimersTicked => (Stage::Updated, RunAction::RunSystems(LifetimeSystemExec::OnUpdate)),
        Stage::Updated => (Stage::LoopTop, RunAction::AdvanceClock),
        Stage::Finished => (Stage::Finished, RunAction::Exit),
    }
}

/// The actions taken from `stage` when the running flag reads `flags[i]`
/// at the `i`-th decision.
pub open spec fn run_actions(stage: Stage, flags: Seq<bool>) -> Seq<RunAction>
    decreases flags.len(),
{
    if flags.len() == 0 {
        Seq::empty()
    } else {
        let (next, action) = spec_step(stage, flags[0]);
        seq![action] + run_actions(next, flags.drop_first())
    }
}

/// Once finished, the loop only exits.
pub proof fn lemma_finished_only_exits(flags: Seq<bool>)
    ensures
        forall|i: int| 0 <= i < flags.len() ==> #[trigger] run_actions(Stage::Finished, flags)[i] == RunAction::Exit,
        run_actions(Stage::Finished, flags).len() == flags.len(),
    decreases flags.len(),
{
    if flags.len() > 0 {
        lemma_finished_only_exits(flags.drop_first());
        let rest = run_actions(Stage::Finished, flags.drop_first());
        assert forall|i: int| 0 <= i < flags.len() implies #[trigger] run_actions(Stage::Finished, flags)[i]
            == RunAction::Exit by {
            if i > 0 {
                assert(run_actions(Stage::Finished, flags)[i] == rest[i - 1]);
            }
        }
    }
}

/// A loop started with the flag set, whose flag is cleared during the first
/// update pass (as `stop` does), runs: the begin phase, one timer tick, one
/// update pass, one clock advance, the finish phase, and then only exits.
/// The flag is read only at the top of an iteration, so its value at any
/// other decision does not matter.
pub proof fn lemma_stop_in_first_update(flags: Seq<bool>)
    requires
        flags.len() >= 5,
        flags[1],
        !flags[4],
    ensures
        run_actions(Stage::Ready, flags).len() == flags.len(),
        run_actions(Stage::Ready, flags).take(5) == seq![
            RunAction::RunSystems(LifetimeSystemExec::OnBegin),
            RunAction::TickTimers,
            RunAction::RunSystems(LifetimeSystemExec::OnUpdate),
            RunAction::AdvanceClock,
            RunAction::RunSystems(LifetimeSystemExec::OnFinish),
        ],
        forall|i: int| 5 <= i < flags.len() ==> #[trigger] run_actions(Stage::Ready, flags)[i] == RunAction::Exit,
{
    let f1 = flags.drop_first();
    let f2 = f1.drop_first();
    let f3 = f2.drop_first();
    let f4 = f3.drop_first();
    let f5 = f4.drop_first();
    assert(f1[0] == flags[1]);
    assert(f4[0] == flags[4]);
    lemma_finished_only_exits(f5);
    let a5 = run_actions(Stage::Finished, f5);
    let a4 = run_actions(Stage::LoopTop, f4);
    let a3 = run_actions(Stage::Updated, f3);
    let a2 = run_actions(Stage::TimersTicked, f2);
    let a1 = run_actions(Stage::LoopTop, f1);
    let a0 = run_actions(Stage::Ready, flags);
    assert(a4 == seq![RunAction::RunSystems(LifetimeSystemExec::OnFinish)] + a5);
    assert(a3 == seq![RunAction::AdvanceClock] + a4);
    assert(a2 == seq![RunAction::RunSystems(LifetimeSystemExec::OnUpdate)] + a3);
    assert(a1 == seq![RunAction::TickTimers] + a2);
    assert(a0 == seq![RunAction::RunSystems(LifetimeSystemExec::OnBegin)] + a1);
    assert(a0.take(5) =~= seq![
        RunAction::RunSystems(LifetimeSystemExec::OnBegin),
        RunAction::TickTimers,
        RunAction::RunSystems(LifetimeSystemExec::OnUpdate),
        RunAction::AdvanceClock,
        RunAction::RunSystems(LifetimeSystemExec::OnFinish),
    ]);
    assert forall|i: int| 5 <= i < flags.len() implies #[trigger] a0[i] == RunAction::Exit by {
        assert(a0[i] == a5[i - 5]);
    }
}

/// The systems registered for each phase, in registration order.
#[derive(Debug)]
pub struct Systems<S> {
    on_begin: Vec<S>,
    on_update: Vec<S>,
    on_finish: Vec<S>,
}

impl<S> Systems<S> {
    /// The systems of phase `exec`, in registration order.
    pub closed spec fn list(&self, exec: LifetimeSystemExec) -> Seq<S> {
        match exec {
            LifetimeSystemExec::OnBegin => self.on_begin@,
            LifetimeSystemExec::OnUpdate => self.on_update@,
            LifetimeSystemExec::OnFinish => self.on_finish@,
        }
    }

    pub fn new() -> (r: Self)
        ensures
            forall|e: LifetimeSystemExec| #[trigger] r.list(e) == Seq::<S>::empty(),
    {
        Systems { on_begin: Vec::new(), on_update: Vec::new(), on_finish: Vec::new() }
    }

    /// Registers `system` last in phase `exec`.
    pub fn push(&mut self, exec: LifetimeSystemExec, system: S)
        ensures
            final(self).list(exec) == old(self).list(exec).push(system),
            forall|e: LifetimeSystemExec| e != exec ==> #[trigger] final(self).list(e) == old(self).list(e),
    {
        match exec {
            LifetimeSystemExec::OnBegin => self.on_begin.push(system),
            LifetimeSystemExec::OnUpdate => self.on_update.push(system),
            LifetimeSystemExec::OnFinish => self.on_finish.push(system),
        }
    }

    /// The systems of phase `exec`.
    pub fn get(&self, exec: LifetimeSystemExec) -> (r: &Vec<S>)
        ensures
            r@ == self.list(exec),
    {
        match exec {
            LifetimeSystemExec::OnBegin => &self.on_begin,
            LifetimeSystemExec::OnUpdate => &self.on_update,
            LifetimeSystemExec::OnFinish => &self.on_finish,
        }
    }

    /// Moves the systems of phase `exec` out, leaving the phase empty, so
    /// that they can run against the scene that holds them.
    pub fn take(&mut self, exec: LifetimeSystemExec) -> (r: Vec<S>)
        ensures
            r@ == old(self).list(exec),
            final(self).list(exec) == Seq::<S>::empty(),
            forall|e: LifetimeSystemExec| e != exec ==> #[trigger] final(self).list(e) == old(self).list(e),
    {
        let mut r: Vec<S> = Vec::new();
        match exec {
            LifetimeSystemExec::OnBegin => std::mem::swap(&mut r, &mut self.on_begin),
            LifetimeSystemExec::OnUpdate => std::mem::swap(&mut r, &mut self.on_update),
            LifetimeSystemExec::OnFinish => std::mem::swap(&mut r, &mut self.on_finish),
        }
        r
    }

    /// Puts systems taken out of phase `exec` back, ahead of any registered
    /// to it in the meantime.
    pub fn restore(&mut self, exec: LifetimeSystemExec, systems: Vec<S>)
        ensures
            final(self).list(exec) == systems@ + old(self).list(exec),
            forall|e: LifetimeSystemExec| e != exec ==> #[trigger] final(self).list(e) == old(self).list(e),
    {
        let mut all = systems;
        match exec {
            LifetimeSystemExec::OnBegin => {
                all.append(&mut self.on_begin);
                self.on_begin = all;
            },
            LifetimeSystemExec::OnUpdate => {
                all.append(&mut self.on_update);
                self.on_update = all;
            },
            LifetimeSystemExec::OnFinish => {
                all.append(&mut self.on_finish);
                self.on_finish = all;
            },
        }
    }
}

} // verus!
