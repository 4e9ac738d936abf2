//! The log of what the manager did: a bounded list of lines, each stamped
//! with the time of day at which it was recorded.

use vstd::prelude::*;
use vstd::string::StringExecFns;
use crate::text::{copy_strings, strings};

verus! {

/// The most lines that the log keeps. When one more is recorded, the oldest
/// line leaves.
pub const LOG_CAPACITY: usize = 100;

/// A line of the log: the time stamp in square brackets, a space, and the
/// message.
pub open spec fn log_line(stamp: Seq<char>, message: Seq<char>) -> Seq<char> {
    "["@ + stamp + "] "@ + message
}

/// A log with one more line at its end, and without its oldest line when
/// that makes it longer than `LOG_CAPACITY`.
pub open spec fn appended(log: Seq<Seq<char>>, line: Seq<char>) -> Seq<Seq<char>> {
    let all = log.push(line);
    if all.len() > LOG_CAPACITY {
        all.drop_first()
    } else {
        all
    }
}

/// Whether `c` is one of the digits `0` to `9`.
pub open spec fn is_digit(c: char) -> bool {
    '0' <= c && c <= '9'
}

/// The shape of a time stamp: two digits each for the hour, the minute and
/// the second, with colons between.
pub open spec fn is_clock_stamp(stamp: Seq<char>) -> bool {
    &&& stamp.len() == 8
    &&& is_digit(stamp[0])
    &&& is_digit(stamp[1])
    &&& stamp[2] == ':'
    &&& is_digit(stamp[3])
    &&& is_digit(stamp[4])
    &&& stamp[5] == ':'
    &&& is_digit(stamp[6])
    &&& is_digit(stamp[7])
}

/// `chrono::Local::now`, formatted with `%H:%M:%S`. Which time it shows
/// depends on the clock and the time zone of the machine; the contract
/// claims only the shape that the format gives every time: hour, minute and
/// second as two digits each, padded with zero, with colons between.
#[verifier::external_body]
fn clock_label() -> (stamp: String)
    ensures
        is_clock_stamp(stamp@),
{
    chrono::Local::now().format("%H:%M:%S").to_string()
}

/// The lines recorded last, oldest first.
pub struct DebugLog {
    messages: Vec<String>,
}

impl View for DebugLog {
    type V = Seq<Seq<char>>;

    closed spec fn view(&self) -> Seq<Seq<char>> {
        strings(self.messages@)
    }
}

impl DebugLog {
    #[verifier::type_invariant]
    spec fn bounded(self) -> bool {
        self.messages@.len() <= LOG_CAPACITY
    }

    /// A log without lines.
    pub fn new() -> (log: DebugLog)
        ensures
            log@ == Seq::<Seq<char>>::empty(),
    {
        let log = DebugLog { messages: Vec::new() };
        assert(log@ =~= Seq::<Seq<char>>::empty());
        log
    }

    /// The number of lines in the log, which never exceeds `LOG_CAPACITY`.
    pub fn len(&self) -> (n: usize)
        ensures
            n == self@.len(),
            n <= LOG_CAPACITY,
    {
        proof {
            use_type_invariant(self);
        }
        self.messages.len()
    }

    /// Records a message under a given time stamp.
    pub fn record(&mut self, stamp: &str, message: &str)
        ensures
            final(self)@ == appended(old(self)@, log_line(stamp@, message@)),
            final(self)@.len() <= LOG_CAPACITY,
    {
        proof {
            use_type_invariant(&*self);
        }
        let mut line = "[".to_owned();
        line.append(stamp);
        line.append("] ");
        line.append(message);
        let ghost before = self.messages@;
        let mut messages: Vec<String> = Vec::new();
        std::mem::swap(&mut self.messages, &mut messages);
        if messages.len() >= LOG_CAPACITY {
            messages.remove(0);
        }
        messages.push(line);
        proof {
            let all = strings(before).push(line@);
            if before.len() >= LOG_CAPACITY {
                assert(strings(messages@) =~= all.drop_first());
            } else {
                assert(strings(messages@) =~= all);
            }
        }
        std::mem::swap(&mut self.messages, &mut messages);
    }

    /// Records a message under the current time of day. Whatever the clock
    /// says, the log afterwards is the log before with one line for the
    /// message appended, stamped in the shape of a time of day.
    pub fn log_debug(&mut self, message: &str)
        ensures
            exists|stamp: Seq<char>|
                is_clock_stamp(stamp) && final(self)@ == appended(
                    old(self)@,
                    #[trigger] log_line(stamp, message@),
                ),
            final(self)@.len() <= LOG_CAPACITY,
    {
        let stamp = clock_label();
        self.record(stamp.as_str(), message);
        assert(final(self)@ == appended(old(self)@, log_line(stamp@, message@)));
    }

    /// Copies of the lines, oldest first.
    pub fn messages(&self) -> (out: Vec<String>)
        ensures
            strings(out@) == self@,
    {
        copy_strings(&self.messages)
    }
}

} // verus!
