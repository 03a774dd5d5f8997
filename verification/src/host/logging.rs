//! What the file logger computes: the name of a day's log file, the text
//! of one record, and which old log files are due for removal.

use vstd::prelude::*;
use vstd::string::StringExecFns;
use crate::plugin_api::paths::{join, join_of};

verus! {

/// The severity of a log record, most severe first.
#[derive(Clone, Copy, Debug, PartialEq, Eq, Structural)]
pub enum LogLevel {
    Error,
    Warn,
    Info,
    Debug,
    Trace,
}

/// The rank of a level: 1 for `Error` up to 5 for `Trace`.
pub open spec fn rank_of(level: LogLevel) -> int {
    match level {
        LogLevel::Error => 1,
        LogLevel::Warn => 2,
        LogLevel::Info => 3,
        LogLevel::Debug => 4,
        LogLevel::Trace => 5,
    }
}

fn rank(level: LogLevel) -> (r: u8)
    ensures
        r == rank_of(level),
{
    match level {
        LogLevel::Error => 1,
        LogLevel::Warn => 2,
        LogLevel::Info => 3,
        LogLevel::Debug => 4,
        LogLevel::Trace => 5,
    }
}

/// Whether a record of `level` is written when records up to `max_level`
/// are wanted.
pub fn enabled(level: LogLevel, max_level: LogLevel) -> (r: bool)
    ensures
        r == (rank_of(level) <= rank_of(max_level)),
{
    rank(level) <= rank(max_level)
}

/// The name of the log file of the day `date`.
pub open spec fn log_file_name_of(date: Seq<char>) -> Seq<char> {
    "smart_transfer_"@ + date + ".log"@
}

/// The name of the log file of the day `date`.
pub fn log_file_name(date: &str) -> (r: String)
    ensures
        r@ == log_file_name_of(date@),
{
    String::from_str("smart_transfer_").concat(date).concat(".log")
}

/// The text of one record: time, level and target in brackets, then the
/// message and a line end.
pub open spec fn log_entry_of(
    timestamp: Seq<char>,
    level: Seq<char>,
    target: Seq<char>,
    message: Seq<char>,
) -> Seq<char> {
    "["@ + timestamp + " "@ + level + " "@ + target + "] "@ + message + "\n"@
}

/// The text of one record.
pub fn format_log_entry(timestamp: &str, level: &str, target: &str, message: &str) -> (r: String)
    ensures
        r@ == log_entry_of(timestamp@, level@, target@, message@),
{
    String::from_str("[").concat(timestamp).concat(" ").concat(level).concat(" ").concat(
        target,
    ).concat("] ").concat(message).concat("\n")
}

/// Writes log records to one file per day in a directory. This type
/// computes the files' paths and the records' text; writing them is the
/// host's part.
#[derive(Debug)]
pub struct FileLogger {
    log_dir: String,
}

impl FileLogger {
    /// The directory of the log files.
    pub closed spec fn dir(&self) -> Seq<char> {
        self.log_dir@
    }

    /// A logger for the directory `log_dir`.
    pub fn new(log_dir: String) -> (r: Self)
        ensures
            r.dir() == log_dir@,
    {
        FileLogger { log_dir }
    }

    /// The directory of the log files.
    pub fn log_dir(&self) -> (r: &String)
        ensures
            r@ == self.dir(),
    {
        &self.log_dir
    }

    /// The path of the log file of the day `date`.
    pub fn get_log_file_path(&self, date: &str) -> (r: String)
        ensures
            r@ == join_of(self.dir(), log_file_name_of(date@)),
    {
        let name = log_file_name(date);
        join(self.log_dir.as_str(), name.as_str())
    }

    /// The text to append to the log file for one record, or nothing where
    /// records of `level` are not wanted.
    pub fn write_log(
        &self,
        max_level: LogLevel,
        timestamp: &str,
        level: LogLevel,
        target: &str,
        message: &str,
    ) -> (r: Option<String>)
        ensures
            match r {
                Some(text) => rank_of(level) <= rank_of(max_level) && text@ == log_entry_of(
                    timestamp@,
                    level_name_of(level),
                    target@,
                    message@,
                ),
                None => rank_of(level) > rank_of(max_level),
            },
    {
        if enabled(level, max_level) {
            let name = level_name(level);
            Some(format_log_entry(timestamp, name.as_str(), target, message))
        } else {
            None
        }
    }
}

/// The name of a level as it stands in a record.
pub open spec fn level_name_of(level: LogLevel) -> Seq<char> {
    match level {
        LogLevel::Error => "ERROR"@,
        LogLevel::Warn => "WARN"@,
        LogLevel::Info => "INFO"@,
        LogLevel::Debug => "DEBUG"@,
        LogLevel::Trace => "TRACE"@,
    }
}

/// The name of a level as it stands in a record.
pub fn level_name(level: LogLevel) -> (r: String)
    ensures
        r@ == level_name_of(level),
{
    match level {
        LogLevel::Error => String::from_str("ERROR"),
        LogLevel::Warn => String::from_str("WARN"),
        LogLevel::Info => String::from_str("INFO"),
        LogLevel::Debug => String::from_str("DEBUG"),
        LogLevel::Trace => String::from_str("TRACE"),
    }
}

/// Whether a file last modified at `modified` is older, at `now`, than
/// `days_to_keep` days. Times are seconds since the epoch.
pub open spec fn expired(modified: int, now: int, days_to_keep: int) -> bool {
    modified < now - days_to_keep * 86400
}

/// Whether a log file is due for removal.
pub fn is_expired(modified: i64, now: i64, days_to_keep: u64) -> (r: bool)
    ensures
        r == expired(modified as int, now as int, days_to_keep as int),
{
    let kept: i128 = (days_to_keep as i128) * 86400;
    (modified as i128) < (now as i128) - kept
}

/// A log file: its path and when it was last modified, in seconds since
/// the epoch.
#[derive(Debug)]
pub struct LogFile {
    pub path: String,
    pub modified: i64,
}

/// The paths of the files that are due for removal, in the order of
/// `files`.
pub open spec fn expired_of(files: Seq<LogFile>, now: int, days_to_keep: int) -> Seq<Seq<char>>
    decreases files.len(),
{
    if files.len() == 0 {
        Seq::empty()
    } else {
        let earlier = expired_of(files.drop_last(), now, days_to_keep);
        if expired(files.last().modified as int, now, days_to_keep) {
            earlier.push(files.last().path@)
        } else {
            earlier
        }
    }
}

/// The log files to remove when those of the last `days_to_keep` days are
/// kept.
pub fn cleanup_old_logs(files: &Vec<LogFile>, now: i64, days_to_keep: u64) -> (r: Vec<String>)
    ensures
        Seq::new(r@.len(), |i: int| r@[i]@) == expired_of(
            files@,
            now as int,
            days_to_keep as int,
        ),
{
    let mut out: Vec<String> = Vec::new();
    let mut i: usize = 0;
    assert(files@.take(0) =~= Seq::<LogFile>::empty());
    assert(Seq::new(out@.len(), |k: int| out@[k]@) =~= Seq::<Seq<char>>::empty());
    while i < files.len()
        invariant
            i <= files@.len(),
            Seq::new(out@.len(), |k: int| out@[k]@) == expired_of(
                files@.take(i as int),
                now as int,
                days_to_keep as int,
            ),
        decreases files@.len() - i,
    {
        let ghost before = Seq::new(out@.len(), |k: int| out@[k]@);
        proof {
            assert(files@.take(i + 1).drop_last() =~= files@.take(i as int));
            assert(files@.take(i + 1).last() == files@[i as int]);
        }
        if is_expired(files[i].modified, now, days_to_keep) {
            out.push(files[i].path.clone());
            assert(Seq::new(out@.len(), |k: int| out@[k]@) =~= before.push(files@[i as int].path@));
        }
        i += 1;
    }
    assert(files@.take(i as int) =~= files@);
    out
}

} // verus!
