use vstd::prelude::*;
use crate::text::{
    find_char, find_from, is_ws, sub_vec, string_of, strip_quotes, trim, trim_bounds, without_quotes,
};

verus! {

/// Lines shorter than this are stored verbatim as a message.
pub const MIN_STRUCTURED_LEN: usize = 30;

/// Width of the `YYYY-MM-DD HH:MM:SS` prefix of a structured line.
pub const TIMESTAMP_LEN: usize = 19;

/// One row of the structured log store.
#[derive(Clone, Debug)]
pub struct LogRecord {
    pub timestamp: String,
    pub level: String,
    pub actor: String,
    pub message: String,
}

/// The fields of a `LogRecord` as character sequences.
pub struct RecordView {
    pub timestamp: Seq<char>,
    pub level: Seq<char>,
    pub actor: Seq<char>,
    pub message: Seq<char>,
}

impl View for LogRecord {
    type V = RecordView;

    open spec fn view(&self) -> RecordView {
        RecordView {
            timestamp: self.timestamp@,
            level: self.level@,
            actor: self.actor@,
            message: self.message@,
        }
    }
}

/// Level and remainder of a structured line: the first `[..]` pair after the
/// timestamp gives the level, the trimmed text after it the remainder.
pub open spec fn split_level(line: Seq<char>) -> (Seq<char>, Seq<char>) {
    let n = line.len() as int;
    let ts = TIMESTAMP_LEN as int;
    match find_from(line, '[', ts) {
        Some(i) => match find_from(line, ']', i + 1) {
            Some(j) => (trim(line.subrange(i + 1, j)), trim(line.subrange(j + 1, n))),
            None => (Seq::empty(), trim(line.subrange(ts, n))),
        },
        None => (Seq::empty(), trim(line.subrange(ts, n))),
    }
}

/// Actor and message of the remainder: a leading `[..]` holds the actor,
/// quotes removed and trimmed; the trimmed text after it is the message.
pub open spec fn split_actor(rest: Seq<char>) -> (Seq<char>, Seq<char>) {
    if rest.len() > 0 && rest[0] == '[' {
        match find_from(rest, ']', 1) {
            Some(k) => (
                trim(strip_quotes(rest.subrange(1, k))),
                trim(rest.subrange(k + 1, rest.len() as int)),
            ),
            None => (Seq::empty(), rest),
        }
    } else {
        (Seq::empty(), rest)
    }
}

/// The record that a line yields; `now` is the clock reading used for lines
/// too short to carry their own timestamp.
pub open spec fn parse_line_spec(line: Seq<char>, now: Seq<char>) -> RecordView {
    if line.len() < MIN_STRUCTURED_LEN {
        RecordView {
            timestamp: now,
            level: Seq::empty(),
            actor: Seq::empty(),
            message: trim(line),
        }
    } else {
        let (level, rest) = split_level(line);
        let (actor, message) = split_actor(rest);
        RecordView {
            timestamp: line.subrange(0, TIMESTAMP_LEN as int),
            level,
            actor,
            message,
        }
    }
}

fn split_level_exec(line: &Vec<char>) -> (r: (Vec<char>, Vec<char>))
    requires
        line@.len() >= MIN_STRUCTURED_LEN,
    ensures
        (r.0@, r.1@) == split_level(line@),
{
    let n = line.len();
    let whole_rest = |line: &Vec<char>| -> (r: Vec<char>)
        requires
            line@.len() >= MIN_STRUCTURED_LEN,
        ensures
            r@ == trim(line@.subrange(TIMESTAMP_LEN as int, line@.len() as int)),
        {
            let (a, b) = trim_bounds(line, TIMESTAMP_LEN, line.len());
            sub_vec(line, a, b)
        };
    match find_char(line, '[', TIMESTAMP_LEN) {
        Some(i) => {
            proof {
                crate::text::lemma_find_from_bounds(line@, '[', TIMESTAMP_LEN as int);
            }
            match find_char(line, ']', i + 1) {
                Some(j) => {
                    proof {
                        crate::text::lemma_find_from_bounds(line@, ']', i + 1);
                    }
                    let (a, b) = trim_bounds(line, i + 1, j);
                    let (c, d) = trim_bounds(line, j + 1, n);
                    (sub_vec(line, a, b), sub_vec(line, c, d))
                },
                None => (Vec::new(), whole_rest(line)),
            }
        },
        None => (Vec::new(), whole_rest(line)),
    }
}

fn split_actor_exec(rest: &Vec<char>) -> (r: (Vec<char>, Vec<char>))
    ensures
        (r.0@, r.1@) == split_actor(rest@),
{
    if rest.len() > 0 && rest[0] == '[' {
        match find_char(rest, ']', 1) {
            Some(k) => {
                proof {
                    crate::text::lemma_find_from_bounds(rest@, ']', 1);
                }
                let inner = without_quotes(&sub_vec(rest, 1, k));
                let (a, b) = trim_bounds(&inner, 0, inner.len());
                let (c, d) = trim_bounds(rest, k + 1, rest.len());
                assert(inner@.subrange(0, inner@.len() as int) =~= inner@);
                (sub_vec(&inner, a, b), sub_vec(rest, c, d))
            },
            None => (Vec::new(), sub_vec(rest, 0, rest.len())),
        }
    } else {
        (Vec::new(), sub_vec(rest, 0, rest.len()))
    }
}

/// Parses one log line into its record. `now` stands as the timestamp of a
/// line too short to carry one.
pub fn parse_line(line: &Vec<char>, now: &str) -> (r: LogRecord)
    ensures
        r@ == parse_line_spec(line@, now@),
{
    if line.len() < MIN_STRUCTURED_LEN {
        let (a, b) = trim_bounds(line, 0, line.len());
        assert(line@.subrange(0, line@.len() as int) =~= line@);
        LogRecord {
            timestamp: now.to_owned(),
            level: String::new(),
            actor: String::new(),
            message: string_of(line, a, b),
        }
    } else {
        let (level, rest) = split_level_exec(line);
        let (actor, message) = split_actor_exec(&rest);
        assert(level@.subrange(0, level@.len() as int) =~= level@);
        assert(actor@.subrange(0, actor@.len() as int) =~= actor@);
        assert(message@.subrange(0, message@.len() as int) =~= message@);
        LogRecord {
            timestamp: string_of(line, 0, TIMESTAMP_LEN),
            level: string_of(&level, 0, level.len()),
            actor: string_of(&actor, 0, actor.len()),
            message: string_of(&message, 0, message.len()),
        }
    }
}

} // verus!
