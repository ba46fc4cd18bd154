//! The message log shown in the viewer's console.

use vstd::prelude::*;
use vstd::string::*;

verus! {

/// How serious a log entry is.
#[derive(Clone, Copy, Debug, PartialEq, Eq, Structural)]
pub enum LogLevel {
    Info,
    Warning,
    Error,
    Debug,
}

impl LogLevel {
    /// The tag that a message of this level is prefixed with.
    pub open spec fn label_spec(self) -> Seq<char> {
        match self {
            LogLevel::Info => "INFO"@,
            LogLevel::Warning => "WARNING"@,
            LogLevel::Error => "ERROR"@,
            LogLevel::Debug => "DEBUG"@,
        }
    }

    /// The tag that a message of this level is prefixed with.
    pub fn label(self) -> (tag: &'static str)
        ensures
            tag@ == self.label_spec(),
    {
        match self {
            LogLevel::Info => "INFO",
            LogLevel::Warning => "WARNING",
            LogLevel::Error => "ERROR",
            LogLevel::Debug => "DEBUG",
        }
    }
}

/// The text stored for a message: its level's tag in brackets, a colon and a
/// space, then the message itself.
pub open spec fn formatted(level: LogLevel, message: Seq<char>) -> Seq<char> {
    "["@ + level.label_spec() + "]: "@ + message
}

/// One entry of the log.
#[derive(Debug)]
pub struct LogMessage {
    pub level: LogLevel,
    pub message: String,
}

/// An entry as contracts see it.
pub struct EntryView {
    pub level: LogLevel,
    pub message: Seq<char>,
}

impl View for LogMessage {
    type V = EntryView;

    open spec fn view(&self) -> EntryView {
        EntryView { level: self.level, message: self.message@ }
    }
}

/// The views of a sequence of entries, in order.
pub open spec fn entry_views(entries: Seq<LogMessage>) -> Seq<EntryView> {
    entries.map_values(|e: LogMessage| e@)
}

/// The entry that a message of a level is stored as.
pub open spec fn entry_of(level: LogLevel, message: Seq<char>) -> EntryView {
    EntryView { level, message: formatted(level, message) }
}

impl Clone for LogMessage {
    fn clone(&self) -> (entry: Self)
        ensures
            entry@ == self@,
    {
        LogMessage { level: self.level, message: self.message.clone() }
    }
}

impl LogMessage {
    /// Tags `message` with `level`.
    pub fn new(level: LogLevel, message: &str) -> (entry: Self)
        ensures
            entry@ == entry_of(level, message@),
    {
        let mut text = String::from_str("[");
        text.append(level.label());
        text.append("]: ");
        text.append(message);
        LogMessage { level, message: text }
    }
}

/// The history of messages, oldest first, and the entry the console has
/// scrolled to.
pub struct Log {
    pub history: Vec<LogMessage>,
    pub history_index: i32,
}

impl Log {
    /// Forgets every entry and rewinds the console.
    pub fn clear(&mut self)
        ensures
            final(self).history@ == Seq::<LogMessage>::empty(),
            final(self).history_index == 0,
    {
        self.history.clear();
        self.history_index = 0;
    }

    /// Appends `message`, tagged with `level`, as the newest entry.
    pub fn log(&mut self, message: &str, level: LogLevel)
        ensures
            entry_views(final(self).history@) == entry_views(old(self).history@).push(
                entry_of(level, message@),
            ),
            final(self).history_index == old(self).history_index,
    {
        let entry = LogMessage::new(level, message);
        self.history.push(entry);
        assert(entry_views(self.history@) =~= entry_views(old(self).history@).push(
            entry_of(level, message@),
        ));
    }
}

impl Default for Log {
    fn default() -> (log: Self)
        ensures
            log.history@ == Seq::<LogMessage>::empty(),
            log.history_index == 0,
    {
        Log { history: Vec::new(), history_index: 0 }
    }
}

} // verus!
