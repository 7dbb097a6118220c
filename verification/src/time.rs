//! The duration-literal parser: a floating-point magnitude followed by an
//! optional unit letter. `t` means ticks, `s` seconds, `d` days; without a
//! suffix the magnitude counts as ticks. The parser consumes characters from
//! a cursor up to and including the first unit letter (or the whole rest of
//! the input when there is none) and keeps the accumulated text verbatim as
//! the magnitude.

use vstd::prelude::*;
use vstd::string::StrSliceExecFns;
use crate::cursor::{is_ws_char, ParseInput};
use crate::float_syntax::{check_float_literal, is_float_literal, lemma_float_literal_head};

verus! {

/// A duration with its unit tag. The magnitude is kept as the literal text
/// that was scanned, always a syntactically valid floating-point literal
/// when the parser built the value.
#[derive(Debug, Clone, PartialEq)]
pub enum Time {
    Ticks(String),
    Seconds(String),
    Days(String),
}

/// The unit tag alone.
#[derive(Debug, Clone, Copy, PartialEq, Eq, Structural)]
pub enum TimeUnit {
    Ticks,
    Seconds,
    Days,
}

impl Time {
    /// Which unit the value is tagged with.
    pub open spec fn unit(self) -> TimeUnit {
        match self {
            Time::Ticks(_) => TimeUnit::Ticks,
            Time::Seconds(_) => TimeUnit::Seconds,
            Time::Days(_) => TimeUnit::Days,
        }
    }

    /// The magnitude text.
    pub open spec fn magnitude(self) -> Seq<char> {
        match self {
            Time::Ticks(m) => m@,
            Time::Seconds(m) => m@,
            Time::Days(m) => m@,
        }
    }
}

/// Failure of an argument parser: what was expected and what stood there.
#[derive(Debug, Clone, PartialEq)]
pub enum CommandArgParseError {
    InvalidArgument { expected: String, got: String },
}

/// The error this parser reports, for every failure alike.
pub open spec fn is_invalid_time_error(e: CommandArgParseError) -> bool {
    &&& e matches CommandArgParseError::InvalidArgument { expected, got }
    &&& e->expected@ == "time"@
    &&& e->got@ == "not a valid time"@
}

/// The argument-kind descriptor consumed by a usage and help subsystem.
#[derive(Debug, Clone, Copy, PartialEq, Eq, Structural)]
pub enum Parser {
    Time,
}

/// The characters that end the scan and pick a unit.
pub open spec fn is_unit_char(c: char) -> bool {
    c == 't' || c == 's' || c == 'd'
}

/// The unit a terminating character picks.
pub open spec fn unit_for(c: char) -> TimeUnit {
    if c == 't' {
        TimeUnit::Ticks
    } else if c == 's' {
        TimeUnit::Seconds
    } else {
        TimeUnit::Days
    }
}

/// How many leading whitespace characters `s` has.
pub open spec fn ws_count(s: Seq<char>) -> int
    decreases s.len(),
{
    if s.len() > 0 && is_ws_char(s[0]) {
        1 + ws_count(s.skip(1))
    } else {
        0
    }
}

/// The index of the first unit character of `s`, or `s.len()` if there is
/// none.
pub open spec fn unit_scan(s: Seq<char>) -> int
    decreases s.len(),
{
    if s.len() == 0 {
        0
    } else if is_unit_char(s[0]) {
        0
    } else {
        1 + unit_scan(s.skip(1))
    }
}

/// What a parse of input `s` yields: a unit-tagged magnitude, or nothing.
pub enum ScanOutcome {
    Parsed { unit: TimeUnit, magnitude: Seq<char> },
    Rejected,
}

/// The parse result on input `s`: skip leading whitespace, accumulate up to
/// the first unit character, and accept the accumulated text exactly when it
/// is a floating-point literal. Without a unit character the whole rest is
/// the magnitude and the unit defaults to ticks; an empty magnitude or one
/// that is no floating-point literal is rejected.
pub open spec fn scan_outcome(s: Seq<char>) -> ScanOutcome {
    let rem = s.skip(ws_count(s));
    let k = unit_scan(rem);
    let magnitude = rem.take(k);
    if k < rem.len() {
        if is_float_literal(magnitude) {
            ScanOutcome::Parsed { unit: unit_for(rem[k]), magnitude }
        } else {
            ScanOutcome::Rejected
        }
    } else {
        if magnitude.len() > 0 && is_float_literal(magnitude) {
            ScanOutcome::Parsed { unit: TimeUnit::Ticks, magnitude }
        } else {
            ScanOutcome::Rejected
        }
    }
}

/// How many characters a parse of input `s` consumes: the whitespace, the
/// accumulated text, and the unit character if one was found.
pub open spec fn scan_consumed(s: Seq<char>) -> int {
    let w = ws_count(s);
    let rem = s.skip(w);
    let k = unit_scan(rem);
    if k < rem.len() {
        w + k + 1
    } else {
        w + k
    }
}

/// A sequence whose first `j` characters are whitespace, and whose `j`-th is
/// not (or ends there), has exactly `j` leading whitespace characters.
proof fn lemma_ws_count_is(s: Seq<char>, j: int)
    requires
        0 <= j <= s.len(),
        forall|i: int| 0 <= i < j ==> is_ws_char(s[i]),
        j < s.len() ==> !is_ws_char(s[j]),
    ensures
        ws_count(s) == j,
    decreases j,
{
    if j == 0 {
        assert(ws_count(s) == 0);
    } else {
        assert(is_ws_char(s[0]));
        lemma_ws_count_is(s.skip(1), j - 1);
    }
}

/// A sequence with no unit character before `j`, and a unit character at `j`
/// (or ending there), has its first unit character exactly at `j`.
proof fn lemma_unit_scan_is(s: Seq<char>, j: int)
    requires
        0 <= j <= s.len(),
        forall|i: int| 0 <= i < j ==> !is_unit_char(s[i]),
        j < s.len() ==> is_unit_char(s[j]),
    ensures
        unit_scan(s) == j,
    decreases j,
{
    if j == 0 {
        assert(unit_scan(s) == 0);
    } else {
        assert(!is_unit_char(s[0]));
        lemma_unit_scan_is(s.skip(1), j - 1);
    }
}

/// Law: every input made of a syntactically valid floating-point literal
/// followed by exactly one unit letter parses successfully, to that unit,
/// with the literal kept verbatim as the magnitude, consuming the whole
/// input. It holds provided no character of the literal is itself a unit
/// letter: the lowercase word `infinity` holds a `t`, so the scan of, say,
/// `infinityd` ends at that `t` and rejects the prefix.
pub proof fn lemma_literal_with_unit_parses(f: Seq<char>, u: char)
    requires
        is_float_literal(f),
        is_unit_char(u),
        forall|i: int| 0 <= i < f.len() ==> !is_unit_char(f[i]),
    ensures
        scan_outcome(f + seq![u]) == (ScanOutcome::Parsed { unit: unit_for(u), magnitude: f }),
        scan_consumed(f + seq![u]) == f.len() + 1,
{
    let s = f + seq![u];
    lemma_float_literal_head(f);
    assert(s[0] == f[0]);
    assert(!is_ws_char(s[0]));
    assert(ws_count(s) == 0);
    let rem = s.skip(0);
    assert(rem =~= s);
    assert forall|i: int| 0 <= i < f.len() implies !is_unit_char(s[i]) by {
        assert(s[i] == f[i]);
    }
    assert(s[f.len() as int] == u);
    lemma_unit_scan_is(s, f.len() as int);
    assert(s.take(f.len() as int) =~= f);
}

fn invalid_time_error() -> (r: CommandArgParseError)
    ensures
        is_invalid_time_error(r),
{
    CommandArgParseError::InvalidArgument {
        expected: "time".to_owned(),
        got: "not a valid time".to_owned(),
    }
}

impl Time {
    /// Parse a duration literal from the cursor. The cursor only moves
    /// forward, by exactly the characters the scan inspected, and what
    /// follows them stays for the next reader. The result is `Ok` with the
    /// unit and the magnitude text that `scan_outcome` names, or the one
    /// invalid-argument error exactly when `scan_outcome` rejects the input.
    pub fn parse_arg(input: &mut ParseInput) -> (r: Result<Time, CommandArgParseError>)
        requires
            old(input).wf(),
        ensures
            final(input).wf(),
            final(input).text@ == old(input).text@,
            old(input).pos <= final(input).pos,
            final(input).pos == old(input).pos + scan_consumed(old(input).remaining()),
            match scan_outcome(old(input).remaining()) {
                ScanOutcome::Parsed { unit, magnitude } => {
                    &&& r is Ok
                    &&& r->Ok_0.unit() == unit
                    &&& r->Ok_0.magnitude() == magnitude
                },
                ScanOutcome::Rejected => r is Err && is_invalid_time_error(r->Err_0),
            },
    {
        let ghost t0 = old(input).text@;
        let ghost p0 = old(input).pos as int;
        let ghost s0 = old(input).remaining();
        input.skip_whitespace();
        let start = input.pos;
        proof {
            assert forall|i: int| 0 <= i < start - p0 implies is_ws_char(s0[i]) by {
                assert(s0[i] == t0[p0 + i]);
            }
            if start - p0 < s0.len() {
                assert(s0[start - p0] == t0[start as int]);
            }
            lemma_ws_count_is(s0, start - p0);
        }
        let ghost rem = s0.skip(start - p0);
        proof {
            assert(rem =~= t0.skip(start as int));
        }
        let mut unit: Option<char> = None;
        loop
            invariant_except_break
                input.wf(),
                input.text@ == t0,
                start <= input.pos,
                unit is None,
                forall|i: int| start <= i < input.pos ==> !is_unit_char(t0[i]),
            ensures
                input.wf(),
                input.text@ == t0,
                start <= input.pos,
                match unit {
                    Some(u) => {
                        &&& is_unit_char(u)
                        &&& start < input.pos
                        &&& t0[input.pos - 1] == u
                        &&& forall|i: int| start <= i < input.pos - 1 ==> !is_unit_char(t0[i])
                    },
                    None => {
                        &&& input.pos == t0.len()
                        &&& forall|i: int| start <= i < input.pos ==> !is_unit_char(t0[i])
                    },
                },
            decreases t0.len() - input.pos,
        {
            match input.pop() {
                None => { break; },
                Some(c) => {
                    proof {
                        assert(c == t0[input.pos - 1]);
                    }
                    if c == 't' || c == 's' || c == 'd' {
                        unit = Some(c);
                        break;
                    }
                },
            }
        }
        match unit {
            Some(u) => {
                let end = input.pos - 1;
                proof {
                    assert forall|i: int| 0 <= i < end - start implies !is_unit_char(rem[i]) by {
                        assert(rem[i] == t0[start + i]);
                    }
                    assert(rem[end - start] == t0[end as int]);
                    lemma_unit_scan_is(rem, end - start);
                    assert(rem.take(end - start) =~= t0.subrange(start as int, end as int));
                }
                let m = input.text.substring_char(start, end).to_owned();
                if check_float_literal(m.as_str()) {
                    let t = if u == 't' {
                        Time::Ticks(m)
                    } else if u == 's' {
                        Time::Seconds(m)
                    } else {
                        Time::Days(m)
                    };
                    Ok(t)
                } else {
                    Err(invalid_time_error())
                }
            },
            None => {
                let end = input.pos;
                proof {
                    assert forall|i: int| 0 <= i < end - start implies !is_unit_char(rem[i]) by {
                        assert(rem[i] == t0[start + i]);
                    }
                    lemma_unit_scan_is(rem, end - start);
                    assert(rem.take(end - start) =~= t0.subrange(start as int, end as int));
                    assert(rem.take(end - start) =~= rem);
                }
                if end > start {
                    let m = input.text.substring_char(start, end).to_owned();
                    if check_float_literal(m.as_str()) {
                        Ok(Time::Ticks(m))
                    } else {
                        Err(invalid_time_error())
                    }
                } else {
                    Err(invalid_time_error())
                }
            },
        }
    }

    /// The fixed descriptor naming this argument kind.
    pub fn display() -> (r: Parser)
        ensures
            r == Parser::Time,
    {
        Parser::Time
    }
}

} // verus!
