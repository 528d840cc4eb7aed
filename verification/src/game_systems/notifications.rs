//! The notification log: a bounded queue of messages that empties one entry
//! at a time as it ages.
use vstd::prelude::*;
use std::collections::VecDeque;

verus! {

/// What contracts say of the notification log.
pub struct LogView {
    /// The messages, oldest first.
    pub log: Seq<Seq<char>>,
    /// How many messages the log keeps at most.
    pub cap: nat,
    /// Ticks left until the oldest message leaves.
    pub expire: nat,
    /// Ticks a fresh write grants the oldest message.
    pub expire_time: nat,
}

impl LogView {
    /// No message stands directly behind an equal one.
    pub open spec fn no_repeats(self) -> bool {
        forall|i: int| 0 <= i < self.log.len() - 1 ==> #[trigger] self.log[i] != self.log[i + 1]
    }

    /// The log has room for at least one message, holds no more than `cap`,
    /// and never the same message twice in a row.
    pub open spec fn wf(self) -> bool {
        &&& self.cap >= 1
        &&& self.log.len() <= self.cap
        &&& self.no_repeats()
    }

    /// The log after `msg` was written: unchanged if `msg` is the newest
    /// message; otherwise the oldest message makes room if the log is full,
    /// `msg` becomes the newest and the countdown starts anew.
    pub open spec fn write(self, msg: Seq<char>) -> LogView {
        if self.log.len() > 0 && self.log.last() == msg {
            self
        } else {
            let kept = if self.log.len() > 0 && self.log.len() == self.cap {
                self.log.drop_first()
            } else {
                self.log
            };
            LogView { log: kept.push(msg), expire: self.expire_time, ..self }
        }
    }

    /// The log one tick later: an empty log stays as it is; otherwise the
    /// countdown goes down by one, and when it reaches zero the oldest message
    /// leaves and the countdown starts anew.
    pub open spec fn tick(self) -> LogView {
        if self.log.len() == 0 {
            self
        } else if self.expire <= 1 {
            LogView { log: self.log.drop_first(), expire: self.expire_time, ..self }
        } else {
            LogView { expire: (self.expire - 1) as nat, ..self }
        }
    }

    /// The log `n` ticks later, with no write in between.
    pub open spec fn tick_times(self, n: nat) -> LogView
        decreases n,
    {
        if n == 0 {
            self
        } else {
            self.tick_times((n - 1) as nat).tick()
        }
    }
}

/// A well-formed log stays well-formed under a write.
pub proof fn lemma_write_keeps_wf(v: LogView, msg: Seq<char>)
    requires
        v.wf(),
    ensures
        v.write(msg).wf(),
        v.write(msg).log.len() > 0,
        v.write(msg).log.last() == msg,
        v.write(msg).cap == v.cap,
{
    let w = v.write(msg);
    if !(v.log.len() > 0 && v.log.last() == msg) {
        let kept = if v.log.len() > 0 && v.log.len() == v.cap {
            v.log.drop_first()
        } else {
            v.log
        };
        assert forall|i: int| 0 <= i < kept.len() - 1 implies #[trigger] kept[i] != kept[i + 1] by {
            if v.log.len() > 0 && v.log.len() == v.cap {
                assert(kept[i] == v.log[i + 1]);
                assert(kept[i + 1] == v.log[i + 1 + 1]);
            }
        }
        assert forall|i: int| 0 <= i < w.log.len() - 1 implies #[trigger] w.log[i] != w.log[i
            + 1] by {
            if i < kept.len() - 1 {
                assert(w.log[i] == kept[i]);
                assert(w.log[i + 1] == kept[i + 1]);
            } else {
                assert(w.log[i] == kept.last());
                assert(kept.last() == v.log.last());
            }
        }
    }
}

/// A well-formed log stays well-formed under a tick.
pub proof fn lemma_tick_keeps_wf(v: LogView)
    requires
        v.wf(),
    ensures
        v.tick().wf(),
        v.tick().log.len() <= v.log.len(),
{
    let w = v.tick();
    if v.log.len() > 0 && v.expire <= 1 {
        assert forall|i: int| 0 <= i < w.log.len() - 1 implies #[trigger] w.log[i] != w.log[i
            + 1] by {
            assert(w.log[i] == v.log[i + 1]);
            assert(w.log[i + 1] == v.log[i + 1 + 1]);
        }
    }
}

/// While the countdown has not run out, ticks leave the messages alone.
pub proof fn lemma_ticks_before_expiry(v: LogView, k: nat)
    requires
        v.log.len() > 0,
        k < v.expire,
    ensures
        v.tick_times(k).log == v.log,
        v.tick_times(k).expire == v.expire - k,
        v.tick_times(k).expire_time == v.expire_time,
        v.tick_times(k).cap == v.cap,
    decreases k,
{
    if k > 0 {
        lemma_ticks_before_expiry(v, (k - 1) as nat);
    }
}

/// A message that was just written, and is not refreshed by another write,
/// keeps the log as it is for `expire_time - 1` ticks; the tick after that,
/// the `expire_time`-th, evicts the log's oldest entry and no other.
pub proof fn lemma_eviction_after_expire_time(v: LogView, msg: Seq<char>, k: nat)
    requires
        v.wf(),
        v.expire_time >= 1,
        !(v.log.len() > 0 && v.log.last() == msg),
        k < v.expire_time,
    ensures
        v.write(msg).tick_times(k).log == v.write(msg).log,
        v.write(msg).tick_times(v.expire_time).log == v.write(msg).log.drop_first(),
        v.write(msg).tick_times(v.expire_time).expire == v.expire_time,
{
    let w = v.write(msg);
    lemma_ticks_before_expiry(w, k);
    lemma_ticks_before_expiry(w, (v.expire_time - 1) as nat);
}

/// The notification log.
pub struct NotificationLog {
    pub log: VecDeque<String>,
    pub cap: u32,
    expire: u32,
    expire_time: u32,
}

impl View for NotificationLog {
    type V = LogView;

    closed spec fn view(&self) -> LogView {
        LogView {
            log: Seq::new(self.log@.len(), |i: int| self.log@[i]@),
            cap: self.cap as nat,
            expire: self.expire as nat,
            expire_time: self.expire_time as nat,
        }
    }
}

impl NotificationLog {
    /// An empty log that keeps up to `cap` messages and lets the oldest one go
    /// `expire_time` ticks after the last write.
    pub fn new(cap: usize, expire_time: u32) -> (r: NotificationLog)
        requires
            cap <= u32::MAX,
        ensures
            r@ == (LogView {
                log: Seq::empty(),
                cap: cap as nat,
                expire: 0,
                expire_time: expire_time as nat,
            }),
            cap >= 1 ==> r@.wf(),
    {
        let r = NotificationLog { log: VecDeque::new(), expire: 0, expire_time, cap: cap as u32 };
        assert(r@.log =~= Seq::<Seq<char>>::empty());
        r
    }

    /// Writes a message, unless it repeats the newest one.
    pub fn write(&mut self, str: String)
        ensures
            final(self)@ == old(self)@.write(str@),
            old(self)@.wf() ==> final(self)@.wf(),
    {
        let n = self.log.len();
        if n > 0 {
            if self.log[n - 1] == str {
                assert(old(self)@.log.last() == str@);
                return ;
            }
        }
        if n > 0 && n == self.cap as usize {
            self.log.pop_front();
        }
        self.log.push_back(str);
        self.expire = self.expire_time;
        proof {
            assert(self@.log =~= old(self)@.write(str@).log);
            if old(self)@.wf() {
                lemma_write_keeps_wf(old(self)@, str@);
            }
        }
    }

    /// How many messages the log holds.
    pub fn len(&self) -> (n: usize)
        ensures
            n == self@.log.len(),
    {
        self.log.len()
    }

    /// Lets one tick pass.
    pub fn tick(&mut self)
        ensures
            final(self)@ == old(self)@.tick(),
            old(self)@.wf() ==> final(self)@.wf(),
    {
        if self.log.len() > 0 {
            if self.expire > 1 {
                self.expire -= 1;
                assert(self@.log =~= old(self)@.log);
            } else {
                self.log.pop_front();
                self.expire = self.expire_time;
                assert(self@.log =~= old(self)@.log.drop_first());
            }
        }
        proof {
            if old(self)@.wf() {
                lemma_tick_keeps_wf(old(self)@);
            }
        }
    }
}

/// Ages the log by one frame.
pub fn update_notification_log_expiry(log: &mut NotificationLog)
    ensures
        final(log)@ == old(log)@.tick(),
        old(log)@.wf() ==> final(log)@.wf(),
{
    log.tick();
}

} // verus!
