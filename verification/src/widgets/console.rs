//! A closable console that lists messages.

use vstd::prelude::*;
use vstd::string::*;

verus! {

/// A closable console and its messages.
pub struct ConsoleWindow {
    pub open: bool,
    pub logs: Vec<String>,
}

impl ConsoleWindow {
    /// An open console with its three start-up messages.
    pub fn new() -> (r: Self)
        ensures
            r.open,
            r.logs.deep_view() == seq!["Console started"@, "Robot connected"@, "Ball detected"@],
    {
        let logs = vec![
            String::from_str("Console started"),
            String::from_str("Robot connected"),
            String::from_str("Ball detected"),
        ];
        assert(logs.deep_view() =~= seq!["Console started"@, "Robot connected"@, "Ball detected"@]);
        ConsoleWindow { open: true, logs }
    }

    /// Appends a message.
    pub fn log(&mut self, msg: String)
        ensures
            final(self).logs.deep_view() == old(self).logs.deep_view().push(msg@),
            final(self).open == old(self).open,
    {
        let ghost before = self.logs.deep_view();
        self.logs.push(msg);
        assert(self.logs.deep_view() =~= before.push(msg@));
    }

    /// The console's title.
    pub fn title(&self) -> (r: &str)
        ensures
            r@ == "Console"@,
    {
        "Console"
    }

    /// The flag that tells whether the console is shown.
    pub fn open(&mut self) -> (r: &mut bool)
        ensures
            *r == old(self).open,
            final(self).open == *final(r),
            final(self).logs == old(self).logs,
    {
        &mut self.open
    }
}

} // verus!
