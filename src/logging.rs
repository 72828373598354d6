//! Log levels and the text of log entries; where an entry goes is up to the
//! sink that writes it.

use vstd::prelude::*;

verus! {

#[derive(Debug, Clone, Copy, PartialEq, Eq, Structural)]
pub enum LogLevel {
    Info,
    Error,
    Debug,
}

pub open spec fn level_name(level: LogLevel) -> Seq<char> {
    match level {
        LogLevel::Info => seq!['I', 'n', 'f', 'o'],
        LogLevel::Error => seq!['E', 'r', 'r', 'o', 'r'],
        LogLevel::Debug => seq!['D', 'e', 'b', 'u', 'g'],
    }
}

/// A log entry: the level in brackets, a space, the message.
pub open spec fn log_line(level: LogLevel, message: Seq<char>) -> Seq<char> {
    seq!['['] + level_name(level) + seq![']', ' '] + message
}

impl LogLevel {
    pub fn name(&self) -> (r: String)
        ensures
            r@ == level_name(*self),
    {
        match self {
            LogLevel::Info => {
                proof {
                    reveal_strlit("Info");
                }
                "Info".to_owned()
            },
            LogLevel::Error => {
                proof {
                    reveal_strlit("Error");
                }
                "Error".to_owned()
            },
            LogLevel::Debug => {
                proof {
                    reveal_strlit("Debug");
                }
                "Debug".to_owned()
            },
        }
    }
}

/// The text of the entry for `message` at `level`, without a line end.
pub fn format_entry(level: LogLevel, message: &str) -> (r: String)
    ensures
        r@ == log_line(level, message@),
{
    proof {
        reveal_strlit("[");
        reveal_strlit("] ");
    }
    let mut line = "[".to_owned();
    let name = level.name();
    line.append(name.as_str());
    line.append("] ");
    line.append(message);
    proof {
        assert(line@ == log_line(level, message@));
    }
    line
}

/// A sink that prints each entry on the console.
#[derive(Debug, Clone, Copy)]
pub struct ConsoleLogger;

/// A sink that writes each entry, ended by a line break, to a file.
#[derive(Debug, Clone)]
pub struct FileLogger {
    file_path: String,
}

impl FileLogger {
    pub closed spec fn spec_file_path(&self) -> Seq<char> {
        self.file_path@
    }

    pub fn new(file_path: String) -> (r: Self)
        ensures
            r.spec_file_path() == file_path@,
    {
        FileLogger { file_path }
    }

    pub fn file_path(&self) -> (r: String)
        ensures
            r@ == self.spec_file_path(),
    {
        self.file_path.clone()
    }

    /// What the sink writes for `message` at `level`.
    pub fn file_entry(&self, level: LogLevel, message: &str) -> (r: String)
        ensures
            r@ == log_line(level, message@).push('\n'),
    {
        let mut line = format_entry(level, message);
        proof {
            reveal_strlit("\n");
        }
        line.append("\n");
        line
    }
}

} // verus!
