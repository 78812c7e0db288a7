//! Named countdown timers. Time is counted in the clock's ticks (the scene
//! uses microseconds). A timer that reaches its duration fires; a `Once`
//! timer is then destroyed, a `Repeat` timer starts over from zero.
//! Destroyed timers are purged after each tick of the whole list.
//!
//! A timer's callback is a value of the application (`C`, such as an index
//! into its own table of handlers): ticking the list hands back the
//! callbacks of the timers that fired, in list order, and the scene runs
//! them once the tick is over.
use vstd::prelude::*;

verus! {

#[derive(Debug, Clone, Copy, PartialEq, Eq, Structural)]
pub enum TimerScheduler {
    Once,
    Repeat,
}

#[derive(Debug)]
pub struct Timer<C> {
    pub name: String,
    /// Ticks elapsed since the timer started or last fired.
    pub time: u64,
    pub duration: u64,
    pub scheduler: TimerScheduler,
    pub callback: Option<C>,
    pub mark_destroy: bool,
}

/// `a + b`, held at `u64::MAX`.
pub open spec fn saturating_sum(a: u64, b: u64) -> u64 {
    if a + b > u64::MAX {
        u64::MAX
    } else {
        (a + b) as u64
    }
}

/// Whether a tick of `delta` makes `t` fire. A destroyed timer never fires.
pub open spec fn fires<C>(t: Timer<C>, delta: u64) -> bool {
    !t.mark_destroy && saturating_sum(t.time, delta) >= t.duration
}

/// `t` after a tick of `delta`.
pub open spec fn ticked<C>(t: Timer<C>, delta: u64) -> Timer<C> {
    if t.mark_destroy {
        t
    } else if fires(t, delta) {
        match t.scheduler {
            TimerScheduler::Once => Timer { time: saturating_sum(t.time, delta), mark_destroy: true, ..t },
            TimerScheduler::Repeat => Timer { time: 0, ..t },
        }
    } else {
        Timer { time: saturating_sum(t.time, delta), ..t }
    }
}

/// The timers of `s` that are not destroyed, in order.
pub open spec fn live_timers<C>(s: Seq<Timer<C>>) -> Seq<Timer<C>>
    decreases s.len(),
{
    if s.len() == 0 {
        Seq::empty()
    } else {
        let rest = live_timers(s.drop_last());
        if s.last().mark_destroy {
            rest
        } else {
            rest.push(s.last())
        }
    }
}

/// Every timer of `s` after a tick of `delta`.
pub open spec fn ticked_all<C>(s: Seq<Timer<C>>, delta: u64) -> Seq<Timer<C>> {
    s.map_values(|t: Timer<C>| ticked(t, delta))
}

/// The callbacks of the timers of `s` that fire on a tick of `delta`, in
/// order.
pub open spec fn fired_callbacks<C>(s: Seq<Timer<C>>, delta: u64) -> Seq<C>
    decreases s.len(),
{
    if s.len() == 0 {
        Seq::empty()
    } else {
        let rest = fired_callbacks(s.drop_last(), delta);
        if fires(s.last(), delta) && s.last().callback is Some {
            rest.push(s.last().callback->0)
        } else {
            rest
        }
    }
}

/// A `Once` timer that fires is destroyed by that tick and never fires
/// again; a `Repeat` timer that fires starts over from zero.
pub proof fn lemma_fire_then<C>(t: Timer<C>, delta: u64, later: u64)
    requires
        fires(t, delta),
    ensures
        t.scheduler == TimerScheduler::Once ==> ticked(t, delta).mark_destroy && !fires(ticked(t, delta), later)
            && live_timers(seq![ticked(t, delta)]) == Seq::<Timer<C>>::empty(),
        t.scheduler == TimerScheduler::Repeat ==> ticked(t, delta).time == 0 && !ticked(t, delta).mark_destroy,
{
    let s = seq![ticked(t, delta)];
    assert(s.drop_last() =~= Seq::<Timer<C>>::empty());
    assert(live_timers(s.drop_last()) == Seq::<Timer<C>>::empty());
    if t.scheduler == TimerScheduler::Once {
        assert(s.last().mark_destroy);
        assert(live_timers(s) == live_timers(s.drop_last()));
    }
}

impl<C: Copy> Timer<C> {
    /// A running timer at zero.
    pub fn new(name: &str, duration: u64, scheduler: TimerScheduler, callback: Option<C>) -> (r: Self)
        ensures
            r.name@ == name@,
            r.time == 0,
            r.duration == duration,
            r.scheduler == scheduler,
            r.callback == callback,
            !r.mark_destroy,
    {
        Timer { name: name.to_owned(), time: 0, duration, scheduler, callback, mark_destroy: false }
    }

    /// Advances the timer by `delta`; returns whether it fired.
    pub fn update(&mut self, delta: u64) -> (r: bool)
        ensures
            r == fires(*old(self), delta),
            *final(self) == ticked(*old(self), delta),
    {
        if self.mark_destroy {
            return false;
        }
        self.time = self.time.saturating_add(delta);
        if self.time >= self.duration {
            match self.scheduler {
                TimerScheduler::Once => self.mark_destroy = true,
                TimerScheduler::Repeat => self.time = 0,
            }
            true
        } else {
            false
        }
    }

    /// Destroys the timer without firing it.
    pub fn stop(&mut self)
        ensures
            *final(self) == (Timer { mark_destroy: true, ..*old(self) }),
    {
        self.mark_destroy = true;
    }
}

/// The timers of a scene.
#[derive(Debug)]
pub struct Timers<C> {
    pub timers: Vec<Timer<C>>,
}

impl<C: Copy> Timers<C> {
    pub fn new() -> (r: Self)
        ensures
            r.timers@ == Seq::<Timer<C>>::empty(),
    {
        Timers { timers: Vec::new() }
    }

    /// Ticks every timer by `delta`, purges the destroyed ones, and returns
    /// the callbacks of those that fired, in list order.
    pub fn update(&mut self, delta: u64) -> (r: Vec<C>)
        ensures
            final(self).timers@ == live_timers(ticked_all(old(self).timers@, delta)),
            r@ == fired_callbacks(old(self).timers@, delta),
    {
        let ghost all = self.timers@;
        let mut kept: Vec<Timer<C>> = Vec::new();
        let mut fired: Vec<C> = Vec::new();
        let ghost mut k: int = 0;
        while self.timers.len() > 0
            invariant
                0 <= k <= all.len(),
                self.timers@ == all.subrange(k, all.len() as int),
                kept@ == live_timers(ticked_all(all.subrange(0, k), delta)),
                fired@ == fired_callbacks(all.subrange(0, k), delta),
            decreases self.timers@.len(),
        {
            let mut t = self.timers.remove(0);
            assert(t == all[k]);
            let f = t.update(delta);
            assert(all.subrange(0, k + 1).drop_last() == all.subrange(0, k));
            assert(ticked_all(all.subrange(0, k + 1), delta).drop_last() =~= ticked_all(all.subrange(0, k), delta));
            assert(ticked_all(all.subrange(0, k + 1), delta).last() == ticked(all[k], delta));
            if f {
                match &t.callback {
                    Some(c) => fired.push(*c),
                    None => {},
                }
            }
            if !t.mark_destroy {
                kept.push(t);
            }
            proof { k = k + 1; }
            assert(self.timers@ =~= all.subrange(k, all.len() as int));
        }
        assert(all.subrange(0, k) == all);
        self.timers = kept;
        fired
    }

    /// Appends `timer` to the list.
    pub fn add_timer(&mut self, timer: Timer<C>)
        ensures
            final(self).timers@ == old(self).timers@.push(timer),
    {
        self.timers.push(timer);
    }

    /// Destroys, without firing, the first timer named `name`; nothing
    /// happens when no timer has that name.
    pub fn stop_timer(&mut self, name: &str)
        ensures
            final(self).timers@.len() == old(self).timers@.len(),
            (forall|i: int| 0 <= i < old(self).timers@.len() ==> old(self).timers@[i].name@ != name@)
                ==> final(self).timers@ == old(self).timers@,
            forall|i: int|
                0 <= i < old(self).timers@.len() && old(self).timers@[i].name@ == name@ && (forall|j: int|
                    0 <= j < i ==> old(self).timers@[j].name@ != name@) ==> final(self).timers@
                    == old(self).timers@.update(i, Timer { mark_destroy: true, ..old(self).timers@[i] }),
    {
        let wanted = name.to_owned();
        let mut i: usize = 0;
        while i < self.timers.len()
            invariant
                i <= self.timers@.len(),
                self.timers@ == old(self).timers@,
                wanted@ == name@,
                forall|j: int| 0 <= j < i ==> old(self).timers@[j].name@ != name@,
            decreases self.timers@.len() - i,
        {
            if self.timers[i].name == wanted {
                self.timers[i].stop();
                assert(self.timers@ =~= old(self).timers@.update(
                    i as int,
                    Timer { mark_destroy: true, ..old(self).timers@[i as int] },
                ));
                return;
            }
            i = i + 1;
        }
    }
}

} // verus!
