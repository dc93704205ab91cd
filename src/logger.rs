use vstd::prelude::*;

use crate::event::InputEvent;
use crate::eventbus::InputListener;

verus! {

/// A listener that keeps every event it receives until the host writes them out.
pub struct Logger {
    logged: Vec<InputEvent>,
}

impl Logger {
    pub closed spec fn logged_count(self) -> nat {
        self.logged.len() as nat
    }

    /// A logger with nothing logged.
    pub fn new() -> (r: Logger)
        ensures
            r.logged_count() == 0,
    {
        Logger { logged: Vec::new() }
    }

    /// Number of events waiting in the log.
    pub fn len(&self) -> (r: usize)
        ensures
            r == self.logged_count(),
    {
        self.logged.len()
    }

    /// The events logged so far, oldest first; the log is emptied.
    pub fn take_logged(&mut self) -> (r: Vec<InputEvent>)
        ensures
            r@.len() == old(self).logged_count(),
            final(self).logged_count() == 0,
    {
        let mut out: Vec<InputEvent> = Vec::new();
        std::mem::swap(&mut out, &mut self.logged);
        out
    }
}

impl InputListener for Logger {
    fn on_input(&mut self, event: &InputEvent) {
        self.logged.push(InputEvent { device_id: event.device_id.clone(), kind: event.kind });
    }
}

} // verus!
