//! The session controller: at most one listening session at a time,
//! idempotent start and stop.

use vstd::prelude::*;

use crate::event::{ev_seq, Ev, Event};

verus! {

/// The controller's protected slot. It remembers whether a background
/// session task occupies the slot; the task handle itself lives with the
/// caller, which spawns a task exactly when `start_vad` asks for one and
/// aborts it exactly when `stop_vad` asks.
///
/// The slot is cleared only by `stop_vad`: a task that finishes on its own
/// leaves the slot occupied until the next `stop_vad` reconciles it.
pub struct Controller {
    running: bool,
}

impl Controller {
    /// True while the slot holds a session.
    pub closed spec fn is_running(self) -> bool {
        self.running
    }

    /// The slot state after one `start_vad` call.
    pub closed spec fn after_start(c: Controller) -> Controller {
        Controller { running: true }
    }

    /// The slot state after one `stop_vad` call.
    pub closed spec fn after_stop(c: Controller) -> Controller {
        Controller { running: false }
    }

    /// The events one `start_vad` call emits.
    pub open spec fn start_events(c: Controller) -> Seq<Ev> {
        if c.is_running() {
            Seq::<Ev>::empty()
        } else {
            seq![Ev::MicEnabled]
        }
    }

    /// The events one `stop_vad` call emits.
    pub open spec fn stop_events(c: Controller) -> Seq<Ev> {
        if c.is_running() {
            seq![Ev::MicDisabled]
        } else {
            Seq::<Ev>::empty()
        }
    }

    pub fn new() -> (c: Controller)
        ensures
            !c.is_running(),
    {
        Controller { running: false }
    }

    /// Whether the slot currently holds a session.
    pub fn has_session(&self) -> (b: bool)
        ensures
            b == self.is_running(),
    {
        self.running
    }

    /// Begin listening. Idempotent: if a session already occupies the slot,
    /// nothing is spawned and nothing is emitted, and the call still
    /// succeeds. Otherwise the slot is filled, the caller is asked to spawn
    /// the one session task (`r.0`), and `mic-enabled` is emitted (`r.1`).
    pub fn start_vad(&mut self) -> (r: (bool, Vec<Event>))
        ensures
            *final(self) == Self::after_start(*old(self)),
            final(self).is_running(),
            r.0 == !old(self).is_running(),
            ev_seq(r.1@) =~= Self::start_events(*old(self)),
    {
        if self.running {
            (false, Vec::new())
        } else {
            self.running = true;
            let mut evs: Vec<Event> = Vec::new();
            evs.push(Event::MicEnabled);
            (true, evs)
        }
    }

    /// End listening. Idempotent: on an idle controller it succeeds, asks
    /// for no abort and emits nothing. On a running one it empties the slot,
    /// asks the caller to abort the session task (`r.0`) and emits
    /// `mic-disabled` (`r.1`).
    pub fn stop_vad(&mut self) -> (r: (bool, Vec<Event>))
        ensures
            *final(self) == Self::after_stop(*old(self)),
            !final(self).is_running(),
            r.0 == old(self).is_running(),
            ev_seq(r.1@) =~= Self::stop_events(*old(self)),
    {
        if self.running {
            self.running = false;
            let mut evs: Vec<Event> = Vec::new();
            evs.push(Event::MicDisabled);
            (true, evs)
        } else {
            (false, Vec::new())
        }
    }
}

/// How many of `n` consecutive `start_vad` calls on `c` ask for a spawn.
pub open spec fn spawn_count(c: Controller, n: nat) -> nat
    decreases n,
{
    if n == 0 {
        0
    } else {
        (if c.is_running() {
            0nat
        } else {
            1nat
        }) + spawn_count(Controller::after_start(c), (n - 1) as nat)
    }
}

/// All events emitted by `n` consecutive `start_vad` calls on `c`.
pub open spec fn start_events_n(c: Controller, n: nat) -> Seq<Ev>
    decreases n,
{
    if n == 0 {
        Seq::<Ev>::empty()
    } else {
        Controller::start_events(c) + start_events_n(Controller::after_start(c), (n - 1) as nat)
    }
}

/// All events emitted by `n` consecutive `stop_vad` calls on `c`.
pub open spec fn stop_events_n(c: Controller, n: nat) -> Seq<Ev>
    decreases n,
{
    if n == 0 {
        Seq::<Ev>::empty()
    } else {
        Controller::stop_events(c) + stop_events_n(Controller::after_stop(c), (n - 1) as nat)
    }
}

/// Law (at most one session): however many callers invoke `start_vad` in
/// a row, exactly one spawn is asked for when the controller was idle, and
/// none when a session was already running; `mic-enabled` is emitted for
/// that one spawn alone. Every call succeeds.
pub proof fn lemma_at_most_one_session(c: Controller, n: nat)
    requires
        n >= 1,
    ensures
        spawn_count(c, n) == if c.is_running() {
            0nat
        } else {
            1nat
        },
        start_events_n(c, n) =~= if c.is_running() {
            Seq::<Ev>::empty()
        } else {
            seq![Ev::MicEnabled]
        },
    decreases n,
{
    let c1 = Controller::after_start(c);
    if n == 1 {
        assert(spawn_count(c1, 0) == 0);
        assert(start_events_n(c1, 0) =~= Seq::<Ev>::empty());
        assert(Controller::start_events(c) + Seq::<Ev>::empty() =~= Controller::start_events(c));
    } else {
        lemma_at_most_one_session(c1, (n - 1) as nat);
        assert(Controller::start_events(c) + start_events_n(c1, (n - 1) as nat)
            =~= Controller::start_events(c));
    }
}

/// Law (stop emits `mic-disabled` at most once): however many callers
/// invoke `stop_vad` in a row, `mic-disabled` is emitted exactly once when
/// a session was running, and never when the controller was already idle.
pub proof fn lemma_mic_disabled_once(c: Controller, n: nat)
    requires
        n >= 1,
    ensures
        stop_events_n(c, n) =~= if c.is_running() {
            seq![Ev::MicDisabled]
        } else {
            Seq::<Ev>::empty()
        },
    decreases n,
{
    let c1 = Controller::after_stop(c);
    if n == 1 {
        assert(stop_events_n(c1, 0) =~= Seq::<Ev>::empty());
        assert(Controller::stop_events(c) + Seq::<Ev>::empty() =~= Controller::stop_events(c));
    } else {
        lemma_mic_disabled_once(c1, (n - 1) as nat);
        assert(Controller::stop_events(c) + stop_events_n(c1, (n - 1) as nat)
            =~= Controller::stop_events(c));
    }
}

} // verus!
