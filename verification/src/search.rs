//! The search box: what is typed shows at once, while page filters and
//! server queries read the text only after typing has paused for 300 ms.
//! Times are milliseconds on the caller's clock.

use vstd::prelude::*;
use crate::text::str_eq;

verus! {

/// Pause after the last keystroke before a search takes effect.
pub const SEARCH_DEBOUNCE_MS: u64 = 300;

/// Extra wait added to a repaint request so that it lands after the pause.
pub const REPAINT_SLACK_MS: u64 = 10;

/// The text in the search box and the text searches use.
pub struct SearchState {
    pub query: String,
    pub debounced: String,
    /// When the text last changed, while a pause is being waited for.
    pub changed_at_ms: Option<u64>,
}

/// Milliseconds from `t` to `now`, 0 for a clock that reads earlier.
pub open spec fn elapsed_ms(t: u64, now: u64) -> int {
    if now >= t { now - t } else { 0 }
}

impl SearchState {
    /// An empty search box.
    pub fn new() -> (r: SearchState)
        ensures
            r.query@.len() == 0,
            r.debounced@.len() == 0,
            r.changed_at_ms is None,
    {
        SearchState { query: String::new(), debounced: String::new(), changed_at_ms: None }
    }

    /// The user typed: the box shows `text` and the pause starts at `now_ms`.
    pub fn edit(&mut self, text: String, now_ms: u64)
        ensures
            final(self).query@ == text@,
            final(self).debounced@ == old(self).debounced@,
            final(self).changed_at_ms == Some(now_ms),
    {
        self.query = text;
        self.changed_at_ms = Some(now_ms);
    }

    /// One frame at `now_ms`. Once the pause is over the typed text takes
    /// effect; while it lasts, returns after how many milliseconds to look
    /// again. Text set without typing takes effect at once.
    pub fn tick(&mut self, now_ms: u64) -> (repaint_after: Option<u64>)
        ensures
            final(self).query@ == old(self).query@,
            match old(self).changed_at_ms {
                Some(t) => if elapsed_ms(t, now_ms) >= SEARCH_DEBOUNCE_MS {
                    &&& final(self).debounced@ == old(self).query@
                    &&& final(self).changed_at_ms is None
                    &&& repaint_after is None
                } else {
                    &&& final(self).debounced@ == old(self).debounced@
                    &&& final(self).changed_at_ms == Some(t)
                    &&& repaint_after == Some((SEARCH_DEBOUNCE_MS - elapsed_ms(t, now_ms) + REPAINT_SLACK_MS) as u64)
                },
                None => {
                    &&& final(self).debounced@ == old(self).query@
                    &&& final(self).changed_at_ms is None
                    &&& repaint_after is None
                },
            },
    {
        match self.changed_at_ms {
            Some(t) => {
                let elapsed: u64 = if now_ms >= t { now_ms - t } else { 0 };
                if elapsed >= SEARCH_DEBOUNCE_MS {
                    self.debounced = self.query.clone();
                    self.changed_at_ms = None;
                    None
                } else {
                    Some(SEARCH_DEBOUNCE_MS - elapsed + REPAINT_SLACK_MS)
                }
            },
            None => {
                if !str_eq(self.query.as_str(), self.debounced.as_str()) {
                    self.debounced = self.query.clone();
                }
                None
            },
        }
    }
}

} // verus!
