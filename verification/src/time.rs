//! The clock: the current moment, the actors that are due this turn, and the
//! actors whose turn is over together with the time their action took.
use vstd::prelude::*;
use std::collections::VecDeque;
use crate::entity::EntityId;

verus! {

/// A span of time, in moments.
pub type Interval = u16;

/// The clock and its two queues.
pub struct Time {
    pub current_time: u64,
    pub action_queue: VecDeque<EntityId>,
    pub wait_queue: VecDeque<(EntityId, Interval)>,
    pub time_blocked_on_same_entity: u64,
}

/// What contracts say of the clock.
pub struct TimeView {
    pub current_time: int,
    /// The actors due this turn; the first is the current actor.
    pub ready: Seq<EntityId>,
    /// The actors whose turn is over, each with the time its action took.
    pub waiting: Seq<(EntityId, Interval)>,
    /// For how many frames the clock has waited on the current actor.
    pub blocked: int,
}

impl TimeView {
    /// The actor at the front of the ready queue, or the dead id.
    pub open spec fn current(self) -> EntityId {
        if self.ready.len() > 0 {
            self.ready[0]
        } else {
            EntityId::dead()
        }
    }

    /// The clock one moment later, with both queues emptied.
    pub open spec fn tick(self) -> TimeView {
        TimeView {
            current_time: self.current_time + 1,
            ready: Seq::empty(),
            waiting: Seq::empty(),
            blocked: self.blocked,
        }
    }

    /// The clock after one more frame of waiting.
    pub open spec fn tick_blocked_time(self) -> TimeView {
        TimeView { blocked: self.blocked + 1, ..self }
    }

    /// The clock with `entity` appended to the ready queue.
    pub open spec fn enqueue(self, entity: EntityId) -> TimeView {
        TimeView { ready: self.ready.push(entity), ..self }
    }

    /// The clock after the current actor's turn ended with an action that took
    /// `t`: the front of the ready queue leaves it and, unless it is the dead
    /// id, joins the wait queue with `t`, and the clock stops counting blocked
    /// frames. With nobody ready nothing changes.
    pub open spec fn push_current_back(self, t: Interval) -> TimeView {
        if self.ready.len() == 0 {
            self
        } else if self.ready[0] == EntityId::dead() {
            TimeView { ready: self.ready.drop_first(), ..self }
        } else {
            TimeView {
                ready: self.ready.drop_first(),
                waiting: self.waiting.push((self.ready[0], t)),
                blocked: 0,
                ..self
            }
        }
    }

    /// The clock after `n` turns ended, each with an action that took `t`.
    pub open spec fn push_back_times(self, t: Interval, n: nat) -> TimeView
        decreases n,
    {
        if n == 0 {
            self
        } else {
            self.push_back_times(t, (n - 1) as nat).push_current_back(t)
        }
    }
}

impl View for Time {
    type V = TimeView;

    open spec fn view(&self) -> TimeView {
        TimeView {
            current_time: self.current_time as int,
            ready: self.action_queue@,
            waiting: self.wait_queue@,
            blocked: self.time_blocked_on_same_entity as int,
        }
    }
}

impl Time {
    /// The smallest unit of time.
    pub const MOMENT: Interval = 1;

    /// What an ordinary action takes.
    pub const TICK: Interval = 16;

    pub const SECOND: Interval = 64;

    pub const MINUTE: Interval = 64 * 64;

    /// A clock at moment zero with nobody queued.
    pub fn new() -> (r: Time)
        ensures
            r@ == (TimeView {
                current_time: 0,
                ready: Seq::empty(),
                waiting: Seq::empty(),
                blocked: 0,
            }),
    {
        Time {
            current_time: 0,
            action_queue: VecDeque::new(),
            wait_queue: VecDeque::new(),
            time_blocked_on_same_entity: 0,
        }
    }

    /// Counts one more frame of waiting on the current actor.
    pub fn tick_blocked_time(&mut self)
        requires
            old(self).time_blocked_on_same_entity < u64::MAX,
        ensures
            final(self)@ == old(self)@.tick_blocked_time(),
    {
        self.time_blocked_on_same_entity += 1;
    }

    /// Whether the clock has waited on the current actor for more than `t`
    /// frames.
    pub fn is_blocked_for_longer_than(&self, t: Interval) -> (r: bool)
        ensures
            r == (self@.blocked > t),
    {
        self.time_blocked_on_same_entity > t as u64
    }

    /// Advances the clock by one moment and empties both queues.
    pub fn tick(&mut self)
        requires
            old(self).current_time < u64::MAX,
        ensures
            final(self)@ == old(self)@.tick(),
    {
        self.current_time += Time::MOMENT as u64;
        self.action_queue.clear();
        self.wait_queue.clear();
    }

    /// Appends `entity` to the ready queue.
    pub fn enqueue(&mut self, entity: EntityId)
        ensures
            final(self)@ == old(self)@.enqueue(entity),
    {
        self.action_queue.push_back(entity);
    }

    /// Whether `e` is the actor whose turn it is: the front of the ready
    /// queue.
    pub fn is_current(&self, e: EntityId) -> (r: bool)
        ensures
            r == (self@.ready.len() > 0 && self@.ready[0] == e),
    {
        self.action_queue.len() > 0 && self.action_queue[0] == e
    }

    /// The actor whose turn it is, or the dead id when nobody is ready.
    pub fn peek_current(&self) -> (r: EntityId)
        ensures
            r == self@.current(),
    {
        if self.action_queue.len() > 0 {
            self.action_queue[0]
        } else {
            EntityId::dead()
        }
    }

    /// Ends the current actor's turn with an action that took `t`.
    pub fn push_current_back(&mut self, t: Interval)
        ensures
            final(self)@ == old(self)@.push_current_back(t),
    {
        let old_front = self.action_queue.pop_front();
        if let Some(entity) = old_front {
            assert(self.action_queue@ =~= old(self).action_queue@.drop_first());
            if entity != EntityId::dead() {
                self.wait_queue.push_back((entity, t));
                self.time_blocked_on_same_entity = 0;
            }
        }
    }
}

} // verus!
