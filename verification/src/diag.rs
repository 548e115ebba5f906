//! An in-memory diagnostic sink.
//!
//! Every component reports what it did and what failed by appending
//! events to a [`DiagLog`] that the caller passes in.  The process that
//! embeds the library drains the events into whatever log file it keeps;
//! the library itself never touches the file system.

use vstd::prelude::*;

verus! {

/// Severity of one diagnostic event.
#[derive(Clone, Copy, PartialEq, Eq, Structural, Debug)]
pub enum LogLevel {
    Info,
    Warn,
    Error,
}

/// One diagnostic line: a severity and a message.
pub struct LogEvent {
    pub level: LogLevel,
    pub text: String,
}

/// The mathematical value of an event: its severity and message text.
pub ghost struct LogEventView {
    pub level: LogLevel,
    pub text: Seq<char>,
}

impl View for LogEvent {
    type V = LogEventView;

    open spec fn view(&self) -> LogEventView {
        LogEventView { level: self.level, text: self.text@ }
    }
}

/// An append-only sequence of diagnostic events, written in call order.
pub struct DiagLog {
    pub events: Vec<LogEvent>,
}

impl View for DiagLog {
    type V = Seq<LogEventView>;

    open spec fn view(&self) -> Seq<LogEventView> {
        self.events@.map_values(|e: LogEvent| e@)
    }
}

/// The event of the given severity and message text.
pub open spec fn ev(level: LogLevel, text: Seq<char>) -> LogEventView {
    LogEventView { level, text }
}

impl DiagLog {
    /// An empty log.
    pub fn new() -> (r: DiagLog)
        ensures
            r@ =~= Seq::<LogEventView>::empty(),
            r.events@.len() == 0,
    {
        DiagLog { events: Vec::new() }
    }

    /// Appends one event of the given severity.
    pub fn append(&mut self, level: LogLevel, text: String)
        ensures
            final(self)@ == old(self)@.push(ev(level, text@)),
            final(self).events@.len() == old(self).events@.len() + 1,
    {
        let ghost events_old = self.events@;
        self.events.push(LogEvent { level, text });
        proof {
            assert(self.events@.map_values(|e: LogEvent| e@) =~= events_old.map_values(
                |e: LogEvent| e@,
            ).push(ev(level, text@)));
        }
    }

    /// Appends one informational event.
    pub fn info(&mut self, text: String)
        ensures
            final(self)@ == old(self)@.push(ev(LogLevel::Info, text@)),
    {
        self.append(LogLevel::Info, text);
    }

    /// Appends one warning event.
    pub fn warn(&mut self, text: String)
        ensures
            final(self)@ == old(self)@.push(ev(LogLevel::Warn, text@)),
    {
        self.append(LogLevel::Warn, text);
    }

    /// Appends one error event.
    pub fn error(&mut self, text: String)
        ensures
            final(self)@ == old(self)@.push(ev(LogLevel::Error, text@)),
    {
        self.append(LogLevel::Error, text);
    }
}

} // verus!
