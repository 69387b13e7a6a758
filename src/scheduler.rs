use vstd::prelude::*;

use crate::classify::{check_link_type, link_type_of, Target};
use crate::enums::LinkType;

verus! {

/// A page open in a browser tab, waiting for its dwell time to pass.
/// `time_added` is in milliseconds on the run's clock.
#[derive(Debug, Clone)]
pub struct ActivePages {
    pub url: Target,
    pub time_added: u64,
    pub linktype: LinkType,
}

/// What the driver of a run does next.
#[derive(Debug, Clone)]
pub enum Action {
    /// Open a tab and navigate it to the target, then step again.
    Open(Target),
    /// Capture the page in the target's tab, close the tab, then step again.
    Capture(Target, LinkType),
    /// Capture a target that needs no tab, then step again.
    CaptureNow(Target, LinkType),
    /// Sleep this many milliseconds, then step again.
    Wait(u64),
    /// Every target has been captured.
    Done,
}

/// The decisions of a sampling run: targets are dispatched in order, pages
/// rendered in a browser wait in a first-in first-out queue until their
/// dwell time has passed, and every other target is captured at once.
#[derive(Debug)]
pub struct Scheduler {
    pub targets: Vec<Target>,
    /// How many targets have been dispatched.
    pub next: usize,
    pub waiting: Vec<ActivePages>,
    /// The target whose tab was just opened; it joins the queue at the next
    /// step, stamped with that step's time.
    pub opening: Option<Target>,
    /// Dwell time in milliseconds.
    pub dwell: u64,
}

/// The age at `now` of an entry stamped `time_added` (none before it).
pub open spec fn age(time_added: u64, now: u64) -> int {
    if now >= time_added {
        now - time_added
    } else {
        0
    }
}

/// The waiting queue once a just-opened tab has joined it at `now`.
pub open spec fn queue_at(s: Scheduler, now: u64) -> Seq<ActivePages> {
    match s.opening {
        Some(t) => s.waiting@.push(ActivePages { url: t, time_added: now, linktype: LinkType::Generic }),
        None => s.waiting@,
    }
}

/// `new` and `r` are the state and action after one step from `old` at time
/// `now`:
/// - right after a tab was opened, the head of the queue is retired if its
///   age exceeds the dwell time;
/// - else the next target is dispatched: a page to render gets a tab, any
///   other target is captured at once;
/// - once all are dispatched, the queue drains in order, each entry no
///   earlier than its dwell time allows;
/// - then the run is done.
pub open spec fn stepped(old: Scheduler, new: Scheduler, now: u64, r: Action) -> bool {
    let q = queue_at(old, now);
    &&& new.targets@ == old.targets@
    &&& new.dwell == old.dwell
    &&& if old.opening is Some && q.len() > 0 && age(q[0].time_added, now) > old.dwell {
        &&& new.next == old.next
        &&& new.opening is None
        &&& new.waiting@ == q.drop_first()
        &&& r == Action::Capture(q[0].url, q[0].linktype)
    } else if old.next < old.targets@.len() {
        let t = old.targets@[old.next as int];
        &&& new.next == old.next + 1
        &&& new.waiting@ == q
        &&& if link_type_of(t@) == LinkType::Generic {
            new.opening == Some(t) && r == Action::Open(t)
        } else {
            new.opening is None && r == Action::CaptureNow(t, link_type_of(t@))
        }
    } else if q.len() > 0 {
        &&& new.next == old.next
        &&& new.opening is None
        &&& if age(q[0].time_added, now) >= old.dwell {
            new.waiting@ == q.drop_first() && r == Action::Capture(q[0].url, q[0].linktype)
        } else {
            new.waiting@ == q && r == Action::Wait((old.dwell - age(q[0].time_added, now)) as u64)
        }
    } else {
        &&& new.next == old.next
        &&& new.opening is None
        &&& new.waiting@.len() == 0
        &&& r == Action::Done
    }
}

impl Scheduler {
    /// The dispatch count stays within the targets.
    pub open spec fn wf(&self) -> bool {
        self.next <= self.targets@.len()
    }

    /// A run over `targets`, in that order, with a dwell time in milliseconds.
    pub fn new(targets: Vec<Target>, dwell: u64) -> (r: Scheduler)
        ensures
            r.wf(),
            r.targets@ == targets@,
            r.next == 0,
            r.waiting@.len() == 0,
            r.opening is None,
            r.dwell == dwell,
    {
        Scheduler { targets, next: 0, waiting: Vec::new(), opening: None, dwell }
    }

    /// The tab for the target just dispatched could not be opened: the
    /// target leaves the run without joining the waiting queue, and is handed
    /// back so that its failure can be recorded. Nothing changes when no tab
    /// was being opened.
    pub fn open_failed(&mut self) -> (r: Option<Target>)
        requires
            old(self).wf(),
        ensures
            final(self).wf(),
            r == old(self).opening,
            final(self).opening is None,
            final(self).targets@ == old(self).targets@,
            final(self).next == old(self).next,
            final(self).waiting@ == old(self).waiting@,
            final(self).dwell == old(self).dwell,
    {
        self.opening.take()
    }

    fn retire_head(&mut self) -> (r: Action)
        requires
            old(self).waiting@.len() > 0,
        ensures
            final(self).waiting@ == old(self).waiting@.drop_first(),
            r == Action::Capture(old(self).waiting@[0].url, old(self).waiting@[0].linktype),
            final(self).targets == old(self).targets,
            final(self).next == old(self).next,
            final(self).opening == old(self).opening,
            final(self).dwell == old(self).dwell,
    {
        let head = self.waiting.remove(0);
        Action::Capture(head.url, head.linktype)
    }

    /// One decision at time `now` (milliseconds on the run's clock).
    pub fn step(&mut self, now: u64) -> (r: Action)
        requires
            old(self).wf(),
        ensures
            final(self).wf(),
            stepped(*old(self), *final(self), now, r),
    {
        let ghost q = queue_at(*self, now);
        let opened = self.opening.is_some();
        match self.opening.take() {
            Some(t) => {
                self.waiting.push(ActivePages { url: t, time_added: now, linktype: LinkType::Generic });
            },
            None => {},
        }
        assert(self.waiting@ == q);
        if opened && self.waiting.len() > 0 {
            let t0 = self.waiting[0].time_added;
            let a = if now >= t0 {
                now - t0
            } else {
                0
            };
            if a > self.dwell {
                return self.retire_head();
            }
        }
        if self.next < self.targets.len() {
            let t = self.targets[self.next].clone_target();
            self.next = self.next + 1;
            let lt = check_link_type(&t);
            if lt == LinkType::Generic {
                self.opening = Some(t.clone_target());
                return Action::Open(t);
            } else {
                return Action::CaptureNow(t, lt);
            }
        }
        if self.waiting.len() > 0 {
            let t0 = self.waiting[0].time_added;
            let a = if now >= t0 {
                now - t0
            } else {
                0
            };
            if a >= self.dwell {
                return self.retire_head();
            } else {
                return Action::Wait(self.dwell - a);
            }
        }
        Action::Done
    }
}

/// With a dwell time of zero, a single page to render is retired at the very
/// next step after it was dispatched, with no wait in between, whatever the
/// clock reads.
pub proof fn lemma_zero_dwell_retires_at_once(
    s0: Scheduler,
    s1: Scheduler,
    s2: Scheduler,
    t0: u64,
    t1: u64,
    a0: Action,
    a1: Action,
)
    requires
        s0.wf(),
        s0.targets@.len() == 1,
        s0.next == 0,
        s0.waiting@.len() == 0,
        s0.opening is None,
        s0.dwell == 0,
        link_type_of(s0.targets@[0]@) == LinkType::Generic,
        stepped(s0, s1, t0, a0),
        stepped(s1, s2, t1, a1),
    ensures
        a0 == Action::Open(s0.targets@[0]),
        a1 == Action::Capture(s0.targets@[0], LinkType::Generic),
        s2.waiting@.len() == 0,
        s2.opening is None,
        s2.next == 1,
{
    let q = queue_at(s1, t1);
    assert(q.len() == 1);
    assert(q.drop_first().len() == 0);
}

} // verus!
