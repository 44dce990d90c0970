//! Log entries: what is to be logged, before it becomes a line.

use vstd::prelude::*;

verus! {

/// What is to be logged, as a mathematical value.
#[verifier::ext_equal]
pub struct Entry {
    /// The level.
    pub level: Seq<char>,
    /// The message.
    pub message: Seq<char>,
    /// The key and value pairs behind the message.
    pub kv: Seq<(Seq<char>, Seq<char>)>,
}

impl Entry {
    /// An entry without pairs.
    pub open spec fn new(level: Seq<char>, message: Seq<char>) -> Entry {
        Entry { level, message, kv: Seq::empty() }
    }

    /// The entry with one more pair.
    pub open spec fn with(self, key: Seq<char>, value: Seq<char>) -> Entry {
        Entry { kv: self.kv.push((key, value)), ..self }
    }
}

/// What is to be logged.
#[derive(Debug)]
pub struct LogRecord {
    /// The level.
    pub level: &'static str,
    /// The message.
    pub message: &'static str,
    /// The key and value pairs behind the message.
    pub kv: Vec<(&'static str, String)>,
}

impl View for LogRecord {
    type V = Entry;

    open spec fn view(&self) -> Entry {
        Entry {
            level: self.level@,
            message: self.message@,
            kv: Seq::new(self.kv@.len(), |i: int| (self.kv@[i].0@, self.kv@[i].1@)),
        }
    }
}

impl LogRecord {
    /// A record without pairs.
    pub fn new(level: &'static str, message: &'static str) -> (r: LogRecord)
        ensures
            r@ == Entry::new(level@, message@),
            r.level@ == level@,
            r.message@ == message@,
            r.kv@.len() == 0,
    {
        let r = LogRecord { level, message, kv: Vec::new() };
        assert(r@ =~= Entry::new(level@, message@));
        r
    }

    /// The record with one more pair.
    pub fn with(self, key: &'static str, value: &str) -> (r: LogRecord)
        ensures
            r@ == self@.with(key@, value@),
            r.level == self.level,
            r.message == self.message,
            r.kv@.len() == self.kv@.len() + 1,
            r.kv@.drop_last() == self.kv@,
            r.kv@.last().0@ == key@,
            r.kv@.last().1@ == value@,
    {
        let mut r = self;
        r.kv.push((key, value.to_string()));
        assert(r@ =~= self@.with(key@, value@));
        r
    }
}

/// The entries of a list of records.
pub open spec fn entries(records: Seq<LogRecord>) -> Seq<Entry> {
    Seq::new(records.len(), |i: int| records[i]@)
}

} // verus!
