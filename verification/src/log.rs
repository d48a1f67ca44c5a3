//! Entries of the service's log and how a line of the log is written.

use vstd::prelude::*;
use vstd::string::StringExecFns;

verus! {

/// How grave an entry of the log is.
#[derive(Debug, PartialEq, Eq, PartialOrd, Ord, Clone, Copy, Structural)]
pub enum Severity {
    Debug,
    Information,
    Warning,
    Error,
    Critical,
}

impl Severity {
    /// The short word that stands for a severity in a line of the log.
    pub open spec fn label_text(self) -> Seq<char> {
        match self {
            Severity::Debug => "DBG"@,
            Severity::Information => "INFO"@,
            Severity::Warning => "WARN"@,
            Severity::Error => "ERR"@,
            Severity::Critical => "CRIT"@,
        }
    }

    /// The short word that stands for this severity in a line of the log.
    pub fn label(&self) -> (word: &'static str)
        ensures
            word@ == self.label_text(),
    {
        match self {
            Severity::Debug => "DBG",
            Severity::Information => "INFO",
            Severity::Warning => "WARN",
            Severity::Error => "ERR",
            Severity::Critical => "CRIT",
        }
    }
}

/// One entry of the log.
#[derive(Debug)]
pub struct LogEntry {
    pub content: String,
    pub sev: Severity,
}

impl LogEntry {
    /// An entry with the given words and severity.
    pub fn new(content: String, sev: Severity) -> (entry: Self)
        ensures
            entry.content == content,
            entry.sev == sev,
    {
        Self { content, sev }
    }

    /// The line that stands for an entry that was made at a time: the time, the
    /// severity in square brackets, and the words.
    pub open spec fn line_text(&self, time: Seq<char>) -> Seq<char> {
        time + ": ["@ + self.sev.label_text() + "] - "@ + self.content@ + "\n"@
    }

    /// Writes the line of the log for this entry, made at the given time.
    pub fn line(&self, time: &str) -> (text: String)
        ensures
            text@ == self.line_text(time@),
    {
        let mut text = String::from_str(time);
        text.append(": [");
        text.append(self.sev.label());
        text.append("] - ");
        text.append(self.content.as_str());
        text.append("\n");
        text
    }
}

/// Where the log is written.
#[derive(Debug)]
pub struct Logger {
    pub file_name: &'static str,
}

impl Logger {
    /// A logger that writes to the file of the given name.
    pub fn new(file_name: &'static str) -> (logger: Self)
        ensures
            logger.file_name == file_name,
    {
        Self { file_name }
    }
}

} // verus!
