//! The cooperative run loop as a state machine, and the liveness probe.
use vstd::prelude::*;

verus! {

/// What happens to the cooperative loop.
#[derive(PartialEq, Eq, Structural, Clone, Copy, Debug)]
pub enum LoopEvent {
    /// Native code hands control to the host's loop.
    Spin,
    /// The host asks for one tick.
    Tick,
    /// Native code, inside a tick, asks the host to stop ticking.
    Pause,
}

/// What the native side does in answer.
#[derive(PartialEq, Eq, Structural, Clone, Copy, Debug)]
pub enum LoopAction {
    /// Install the tick entry point with the host and yield.
    InstallTick,
    /// Run the tick's body.
    RunTick,
    /// Do nothing: the loop is paused.
    Skip,
    /// Ask the host to stop scheduling ticks.
    StopTicks,
}

pub open spec fn next_running(running: bool, e: LoopEvent) -> bool {
    match e {
        LoopEvent::Spin => true,
        LoopEvent::Tick => running,
        LoopEvent::Pause => false,
    }
}

pub open spec fn action_of(running: bool, e: LoopEvent) -> LoopAction {
    match e {
        LoopEvent::Spin => LoopAction::InstallTick,
        LoopEvent::Tick => if running {
            LoopAction::RunTick
        } else {
            LoopAction::Skip
        },
        LoopEvent::Pause => LoopAction::StopTicks,
    }
}

/// Whether the loop runs after `events`, starting from `running`.
pub open spec fn running_after(running: bool, events: Seq<LoopEvent>) -> bool
    decreases events.len(),
{
    if events.len() == 0 {
        running
    } else {
        next_running(running_after(running, events.drop_last()), events.last())
    }
}

/// The actions taken for `events`, one each, starting from `running`.
pub open spec fn actions(running: bool, events: Seq<LoopEvent>) -> Seq<LoopAction>
    decreases events.len(),
{
    if events.len() == 0 {
        Seq::empty()
    } else {
        actions(running, events.drop_last()).push(
            action_of(running_after(running, events.drop_last()), events.last()),
        )
    }
}

proof fn lemma_actions_len(running: bool, events: Seq<LoopEvent>)
    ensures
        actions(running, events).len() == events.len(),
    decreases events.len(),
{
    if events.len() > 0 {
        lemma_actions_len(running, events.drop_last());
    }
}

/// After a pause, no tick runs until the next spin, whatever else happens.
pub proof fn lemma_pause_stops_ticks(running: bool, events: Seq<LoopEvent>)
    requires
        events.len() > 0,
        events[0] == LoopEvent::Pause,
        forall|i: int| 0 <= i < events.len() ==> #[trigger] events[i] != LoopEvent::Spin,
    ensures
        !running_after(running, events),
        forall|i: int|
            0 <= i < events.len() ==> #[trigger] actions(running, events)[i]
                != LoopAction::RunTick,
    decreases events.len(),
{
    if events.len() > 1 {
        let init = events.drop_last();
        assert(init[0] == events[0]);
        assert forall|i: int| 0 <= i < init.len() implies #[trigger] init[i]
            != LoopEvent::Spin by {
            assert(init[i] == events[i]);
        };
        lemma_pause_stops_ticks(running, init);
        lemma_actions_len(running, init);
        assert(events.last() == events[events.len() - 1]);
        assert forall|i: int| 0 <= i < events.len() implies #[trigger] actions(running, events)[i]
            != LoopAction::RunTick by {
            if i < init.len() {
                assert(actions(running, events)[i] == actions(running, init)[i]);
            }
        };
    } else {
        assert(events.drop_last().len() == 0);
        assert(events.last() == events[0]);
        assert(actions(running, events.drop_last()) =~= Seq::<LoopAction>::empty());
        assert(running_after(running, events.drop_last()) == running);
        assert(actions(running, events) =~= seq![LoopAction::StopTicks]);
    }
}

/// The native side of the host-driven loop.
pub struct RunLoop {
    running: bool,
}

impl RunLoop {
    pub closed spec fn is_running(&self) -> bool {
        self.running
    }

    /// A loop that has not been spun.
    pub fn new() -> (r: RunLoop)
        ensures
            !r.is_running(),
    {
        RunLoop { running: false }
    }

    pub fn running(&self) -> (r: bool)
        ensures
            r == self.is_running(),
    {
        self.running
    }

    /// Takes one event and says what to do about it.
    pub fn step(&mut self, e: LoopEvent) -> (r: LoopAction)
        ensures
            r == action_of(old(self).is_running(), e),
            final(self).is_running() == next_running(old(self).is_running(), e),
    {
        match e {
            LoopEvent::Spin => {
                self.running = true;
                LoopAction::InstallTick
            },
            LoopEvent::Tick => if self.running {
                LoopAction::RunTick
            } else {
                LoopAction::Skip
            },
            LoopEvent::Pause => {
                self.running = false;
                LoopAction::StopTicks
            },
        }
    }

    /// Takes `events` in order and gives the action for each.
    pub fn run(&mut self, events: &Vec<LoopEvent>) -> (r: Vec<LoopAction>)
        ensures
            r@ == actions(old(self).is_running(), events@),
            final(self).is_running() == running_after(old(self).is_running(), events@),
    {
        let ghost start = self.running;
        let mut r: Vec<LoopAction> = Vec::new();
        let mut i: usize = 0;
        while i < events.len()
            invariant
                i <= events@.len(),
                start == old(self).is_running(),
                r@ == actions(start, events@.take(i as int)),
                self.is_running() == running_after(start, events@.take(i as int)),
            decreases events@.len() - i,
        {
            assert(events@.take(i + 1).drop_last() =~= events@.take(i as int));
            let a = self.step(events[i]);
            r.push(a);
            i = i + 1;
        }
        assert(events@.take(i as int) =~= events@);
        r
    }
}

/// The input code that the liveness probe answers.
pub const PROBE_CODE: i32 = 355;

/// The probe's answer to `PROBE_CODE`.
pub const PROBE_REPLY: i32 = 55;

/// The liveness probe: `PROBE_REPLY` for `PROBE_CODE`, -1 for any other code.
pub fn syscall(a: i32) -> (r: i32)
    ensures
        a == PROBE_CODE ==> r == PROBE_REPLY,
        a != PROBE_CODE ==> r == -1,
{
    if a == PROBE_CODE {
        PROBE_REPLY
    } else {
        -1
    }
}

} // verus!
