//! The transient on-screen log: messages with a remaining lifetime,
//! aged by each frame's elapsed time and dropped when they run out.

use vstd::prelude::*;
use crate::surface::Color;

verus! {

/// How long a fresh log message lives, in milliseconds.
pub const LOG_LIFETIME_MS: u64 = 10_000;

/// One ephemeral log line: its text, its color, and how long it has left.
pub struct LogMessage {
    pub text: String,
    pub color: Color,
    pub remaining_ms: u64,
}

impl Clone for LogMessage {
    fn clone(&self) -> (r: LogMessage)
        ensures
            r == *self,
    {
        LogMessage { text: self.text.clone(), color: self.color, remaining_ms: self.remaining_ms }
    }
}

/// `m` with `delta` milliseconds of its lifetime spent.
pub open spec fn msg_aged(m: LogMessage, delta: int) -> LogMessage {
    LogMessage { text: m.text, color: m.color, remaining_ms: (m.remaining_ms - delta) as u64 }
}

/// The queue after a frame of `delta` milliseconds: every message with
/// strictly more than `delta` of lifetime left survives with its
/// lifetime reduced, in order; a message whose lifetime would reach or
/// pass zero is dropped that same frame.
pub open spec fn aged(s: Seq<LogMessage>, delta: int) -> Seq<LogMessage>
    decreases s.len(),
{
    if s.len() == 0 {
        Seq::empty()
    } else {
        aged(s.drop_last(), delta) + (if s.last().remaining_ms > delta {
            seq![msg_aged(s.last(), delta)]
        } else {
            Seq::empty()
        })
    }
}

/// The queue after pushing a fresh message in front of `s` on a screen
/// with room for `max_lines` lines: the oldest message falls off when the
/// queue would outgrow the screen.
pub open spec fn logged(s: Seq<LogMessage>, m: LogMessage, max_lines: int) -> Seq<LogMessage> {
    let pushed = seq![m] + s;
    if pushed.len() > max_lines {
        pushed.drop_last()
    } else {
        pushed
    }
}

/// Put a fresh message with the full lifetime at the front of the queue,
/// dropping the oldest message if the queue outgrows `max_lines`.
pub fn push_message(log: &mut Vec<LogMessage>, text: String, color: Color, max_lines: usize)
    requires
        old(log)@.len() < usize::MAX,
    ensures
        final(log)@ == logged(
            old(log)@,
            LogMessage { text, color, remaining_ms: LOG_LIFETIME_MS },
            max_lines as int,
        ),
{
    let ghost orig = log@;
    let m = LogMessage { text, color, remaining_ms: LOG_LIFETIME_MS };
    let ghost mg = m;
    log.insert(0, m);
    proof {
        assert(log@ =~= seq![mg] + orig);
    }
    if log.len() > max_lines {
        let _ = log.pop();
    }
}

/// Age the whole queue by `delta_ms` milliseconds: surviving messages
/// keep their order with their lifetimes reduced; a message whose
/// lifetime would be spent — reaching or passing zero — is removed.
pub fn age_messages(log: &mut Vec<LogMessage>, delta_ms: u64)
    ensures
        final(log)@ == aged(old(log)@, delta_ms as int),
{
    let ghost orig = log@;
    let mut out: Vec<LogMessage> = Vec::new();
    let mut i: usize = 0;
    while i < log.len()
        invariant
            log@ == orig,
            0 <= i <= orig.len(),
            out@ == aged(orig.take(i as int), delta_ms as int),
        decreases orig.len() - i,
    {
        let keep = log[i].remaining_ms > delta_ms;
        if keep {
            let m = log[i].clone();
            out.push(LogMessage {
                text: m.text,
                color: m.color,
                remaining_ms: m.remaining_ms - delta_ms,
            });
        }
        proof {
            assert(orig.take(i as int + 1).drop_last() =~= orig.take(i as int));
            assert(orig.take(i as int + 1).last() == orig[i as int]);
            assert(out@ =~= aged(orig.take(i as int + 1), delta_ms as int));
        }
        i = i + 1;
    }
    proof {
        assert(orig.take(orig.len() as int) =~= orig);
    }
    *log = out;
}

} // verus!
