//! Structured log events: a level, a tag, a message and a timestamp, and the
//! lines they are written as.

use vstd::prelude::*;
use crate::text::{chars_of, find_char_from, find_from, lemma_find_from_bounds, string_of_range, to_uppercase, uppercase};
use crate::time::{is_utc_rfc3339, now_rfc3339};

verus! {

/// An event of the log.
#[derive(Debug, Clone)]
pub struct Event {
    /// `info`, `warn` or `error`.
    pub level: String,
    /// What the event is about, such as `emit` or `governance`.
    pub tag: String,
    pub message: String,
    pub timestamp: String,
    pub data: Option<serde_json::Value>,
}

/// How events are written: coloured lines or JSON.
#[derive(Debug, Clone, Copy, PartialEq, Eq, Structural)]
pub enum LogFormat {
    Pretty,
    Json,
}

/// The terminal colour a level is shown in.
pub open spec fn level_color(level: Seq<char>) -> Seq<char> {
    if level == "info"@ {
        "\x1b[32m"@
    } else if level == "warn"@ {
        "\x1b[33m"@
    } else if level == "error"@ {
        "\x1b[31m"@
    } else {
        "\x1b[0m"@
    }
}

/// The time of day of an RFC 3339 timestamp: the text after its first `T`
/// (up to a second `T`), or the whole timestamp when it has none, cut at
/// its first `.`.
pub open spec fn time_of_day(ts: Seq<char>) -> Seq<char> {
    let k = find_from(ts, 'T', 0);
    let after = if k < ts.len() {
        ts.subrange(k + 1, find_from(ts, 'T', k + 1))
    } else {
        ts
    };
    after.take(find_from(after, '.', 0))
}

impl Event {
    /// An event stamped with the current time, without data.
    pub fn new(level: &str, tag: &str, message: &str) -> (e: Self)
        ensures
            e.level@ == level@,
            e.tag@ == tag@,
            e.message@ == message@,
            is_utc_rfc3339(e.timestamp@),
            e.data is None,
    {
        Event {
            level: String::from_str(level),
            tag: String::from_str(tag),
            message: String::from_str(message),
            timestamp: now_rfc3339(),
            data: None,
        }
    }

    /// The event with `data` attached.
    pub fn with_data(self, data: serde_json::Value) -> (e: Self)
        ensures
            e.level == self.level,
            e.tag == self.tag,
            e.message == self.message,
            e.timestamp == self.timestamp,
            e.data == Some(data),
    {
        let mut e = self;
        e.data = Some(data);
        e
    }

    /// An `info` event.
    pub fn info(tag: &str, message: &str) -> (e: Self)
        ensures
            e.level@ == "info"@,
            e.tag@ == tag@,
            e.message@ == message@,
            is_utc_rfc3339(e.timestamp@),
            e.data is None,
    {
        Self::new("info", tag, message)
    }

    /// A `warn` event.
    pub fn warn(tag: &str, message: &str) -> (e: Self)
        ensures
            e.level@ == "warn"@,
            e.tag@ == tag@,
            e.message@ == message@,
            is_utc_rfc3339(e.timestamp@),
            e.data is None,
    {
        Self::new("warn", tag, message)
    }

    /// An `error` event.
    pub fn error(tag: &str, message: &str) -> (e: Self)
        ensures
            e.level@ == "error"@,
            e.tag@ == tag@,
            e.message@ == message@,
            is_utc_rfc3339(e.timestamp@),
            e.data is None,
    {
        Self::new("error", tag, message)
    }

    /// The coloured line the event is shown as on the terminal:
    /// colour, time of day, ` [LEVEL] [tag] message`, colour reset.
    pub fn pretty_line(&self) -> (r: String)
        ensures
            r@ == level_color(self.level@) + time_of_day(self.timestamp@) + " ["@ + uppercase(self.level@)
                + "] ["@ + self.tag@ + "] "@ + self.message@ + "\x1b[0m"@,
    {
        proof {
            reveal_strlit("info");
            reveal_strlit("warn");
            reveal_strlit("error");
        }
        let color = if crate::text::str_eq(self.level.as_str(), "info") {
            "\x1b[32m"
        } else if crate::text::str_eq(self.level.as_str(), "warn") {
            "\x1b[33m"
        } else if crate::text::str_eq(self.level.as_str(), "error") {
            "\x1b[31m"
        } else {
            "\x1b[0m"
        };
        let mut r = String::from_str(color);
        let t = time_of_day_text(self.timestamp.as_str());
        r.append(t.as_str());
        r.append(" [");
        let up = to_uppercase(self.level.as_str());
        r.append(up.as_str());
        r.append("] [");
        r.append(self.tag.as_str());
        r.append("] ");
        r.append(self.message.as_str());
        r.append("\x1b[0m");
        r
    }

    /// The plain line the event is written to a log file as:
    /// `timestamp [LEVEL] [tag] message`.
    pub fn plain_line(&self) -> (r: String)
        ensures
            r@ == self.timestamp@ + " ["@ + uppercase(self.level@) + "] ["@ + self.tag@ + "] "@
                + self.message@,
    {
        let mut r = self.timestamp.clone();
        r.append(" [");
        let up = to_uppercase(self.level.as_str());
        r.append(up.as_str());
        r.append("] [");
        r.append(self.tag.as_str());
        r.append("] ");
        r.append(self.message.as_str());
        r
    }
}

/// The time of day of an RFC 3339 timestamp (see [`time_of_day`]).
pub fn time_of_day_text(ts: &str) -> (r: String)
    ensures
        r@ == time_of_day(ts@),
{
    let cs = chars_of(ts);
    let s = cs.as_slice();
    proof {
        lemma_find_from_bounds(s@, 'T', 0);
    }
    let k = find_char_from(s, 'T', 0);
    let after = if k < s.len() {
        proof {
            lemma_find_from_bounds(s@, 'T', k + 1);
        }
        let e = find_char_from(s, 'T', k + 1);
        crate::text::sub_chars(s, k + 1, e)
    } else {
        crate::text::sub_chars(s, 0, s.len())
    };
    assert(s@.subrange(0, s@.len() as int) =~= s@);
    let a = after.as_slice();
    proof {
        lemma_find_from_bounds(a@, '.', 0);
    }
    let d = find_char_from(a, '.', 0);
    let r = string_of_range(a, 0, d);
    assert(r@ =~= a@.take(d as int));
    r
}

} // verus!
