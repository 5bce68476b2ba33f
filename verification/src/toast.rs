//! Toast notifications: each fades in when created, starts fading out after
//! 4 s and is dropped after 4.7 s.

use vstd::prelude::*;
use crate::nav::ToastLevel;

verus! {

/// Age in milliseconds after which a toast starts fading out.
pub const TOAST_EXIT_AFTER_MS: u64 = 4000;

/// Age in milliseconds after which a toast is gone.
pub const TOAST_GONE_AFTER_MS: u64 = 4700;

/// A toast with its timeline (milliseconds on the caller's clock): it fades in
/// from `created_at_ms`, and out from `exit_started_ms` once `exit_triggered`.
pub struct AnimatedToast {
    pub message: String,
    pub level: ToastLevel,
    pub created_at_ms: u64,
    pub exit_triggered: bool,
    pub exit_started_ms: u64,
}

impl AnimatedToast {
    /// A toast created at `now_ms`, fading in.
    pub fn new(message: String, level: ToastLevel, now_ms: u64) -> (r: AnimatedToast)
        ensures
            r.message@ == message@,
            r.level == level,
            r.created_at_ms == now_ms,
            !r.exit_triggered,
            r.exit_started_ms == 0,
    {
        AnimatedToast { message, level, created_at_ms: now_ms, exit_triggered: false, exit_started_ms: 0 }
    }
}

/// Age of a toast at `now` (0 when the clock reads earlier than its creation).
pub open spec fn toast_age(t: AnimatedToast, now: u64) -> int {
    if now >= t.created_at_ms {
        now - t.created_at_ms
    } else {
        0
    }
}

/// The toast at `now`: its fade-out started if it is older than 4 s and had not started.
pub open spec fn toast_aged(t: AnimatedToast, now: u64) -> AnimatedToast {
    if !t.exit_triggered && toast_age(t, now) > TOAST_EXIT_AFTER_MS {
        AnimatedToast {
            message: t.message,
            level: t.level,
            created_at_ms: t.created_at_ms,
            exit_triggered: true,
            exit_started_ms: now,
        }
    } else {
        t
    }
}

/// The toasts still shown at `now`, aged, in order.
pub open spec fn toasts_at(ts: Seq<AnimatedToast>, now: u64) -> Seq<AnimatedToast>
    decreases ts.len(),
{
    if ts.len() == 0 {
        seq![]
    } else {
        let rest = toasts_at(ts.drop_last(), now);
        if toast_age(ts.last(), now) < TOAST_GONE_AFTER_MS {
            rest.push(toast_aged(ts.last(), now))
        } else {
            rest
        }
    }
}

/// Start the fade-out of toasts older than 4 s and drop those older than 4.7 s.
pub fn cleanup_toasts(toasts: &mut Vec<AnimatedToast>, now_ms: u64)
    ensures
        final(toasts)@ == toasts_at(old(toasts)@, now_ms),
{
    let mut pending: Vec<AnimatedToast> = Vec::new();
    std::mem::swap(&mut pending, toasts);
    let ghost all = pending@;
    let ghost mut done: int = 0;
    while pending.len() > 0
        invariant
            0 <= done <= all.len(),
            pending@ == all.subrange(done, all.len() as int),
            toasts@ == toasts_at(all.take(done), now_ms),
        decreases pending.len(),
    {
        let mut t = pending.remove(0);
        proof {
            assert(all.take(done + 1).drop_last() =~= all.take(done));
            assert(all.take(done + 1).last() == t);
        }
        let age: u64 = if now_ms >= t.created_at_ms { now_ms - t.created_at_ms } else { 0 };
        if !t.exit_triggered && age > TOAST_EXIT_AFTER_MS {
            t.exit_triggered = true;
            t.exit_started_ms = now_ms;
        }
        if age < TOAST_GONE_AFTER_MS {
            toasts.push(t);
        }
        proof {
            done = done + 1;
            assert(pending@ =~= all.subrange(done, all.len() as int));
        }
    }
    assert(all.take(done) =~= all);
}

/// Every toast kept by a clean-up is younger than 4.7 s, and each one older
/// than 4 s is fading out.
pub proof fn lemma_cleanup_bounds(ts: Seq<AnimatedToast>, now: u64)
    ensures
        forall|k: int| 0 <= k < toasts_at(ts, now).len() ==> {
            let t = #[trigger] toasts_at(ts, now)[k];
            &&& toast_age(t, now) < TOAST_GONE_AFTER_MS
            &&& toast_age(t, now) > TOAST_EXIT_AFTER_MS ==> t.exit_triggered
        },
        toasts_at(ts, now).len() <= ts.len(),
    decreases ts.len(),
{
    if ts.len() > 0 {
        lemma_cleanup_bounds(ts.drop_last(), now);
    }
}

} // verus!
