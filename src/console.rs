use vstd::prelude::*;

use crate::decimal::{decimal_milli, parse_milli};
use crate::error::InstallError;
use crate::text::{
    chars_of,
    contains,
    contains_seq,
    find_from,
    find_last,
    first_from,
    last_index,
    lemma_first_from,
    slice_of,
    trim_start,
    trimmed_start,
};

verus! {

/// Progress is counted in thousandths of a percent: `100_000` is done.
pub const COMPLETE: u64 = 100_000;

/// One event read from the benchmark's console.
#[derive(Clone, Copy, Debug, PartialEq, Eq, Structural)]
pub enum RunningMsg {
    /// Fraction done, in thousandths of a percent.
    Progress(u64),
    /// One observed rate, in thousandths of a chunk per second.
    Result(u64),
}

/// The part of a line after its last `(` (the whole line when it has none).
pub open spec fn last_segment(line: Seq<char>) -> Seq<char> {
    match last_index(line, '(') {
        Some(q) => line.subrange(q + 1, line.len() as int),
        None => line,
    }
}

/// The text before the first `%` of a segment.
pub open spec fn percent_text(seg: Seq<char>) -> Seq<char> {
    seg.subrange(0, first_from(seg, '%', 0))
}

/// The text between the first `:` of a segment and the next `:` (or the
/// end), if the segment has a `:`.
pub open spec fn rate_field(seg: Seq<char>) -> Option<Seq<char>> {
    let c = first_from(seg, ':', 0);
    if c >= seg.len() {
        None
    } else {
        let rest = seg.subrange(c + 1, seg.len() as int);
        Some(rest.subrange(0, first_from(rest, ':', 0)))
    }
}

/// The first word of a field, leading whitespace skipped.
pub open spec fn rate_text(field: Seq<char>) -> Seq<char> {
    let t = trim_start(field);
    t.subrange(0, first_from(t, ' ', 0))
}

/// The events of one console line, or `None` when the line is a progress
/// line whose numbers do not parse.
pub open spec fn console_events(line: Seq<char>) -> Option<Seq<RunningMsg>> {
    if !contains_seq(line, "[Chunky]"@) || !contains_seq(line, "%"@) {
        Some(Seq::empty())
    } else {
        let seg = last_segment(line);
        match decimal_milli(percent_text(seg)) {
            None => None,
            Some(p) => if p == COMPLETE {
                Some(seq![RunningMsg::Progress(p)])
            } else {
                match rate_field(seg) {
                    None => None,
                    Some(f) => match decimal_milli(rate_text(f)) {
                        None => None,
                        Some(r) => Some(
                            seq![RunningMsg::Progress(p), RunningMsg::Result(r)],
                        ),
                    },
                }
            },
        }
    }
}

/// Reads one line of the benchmark's console output.
///
/// Lines without the benchmark's marker or without a `%` give no events. A
/// progress line gives its percentage; unless that is 100, it also gives
/// the rate that follows the first `:` of its last parenthesised part. A
/// progress line whose numbers do not parse is an error, which the caller
/// may skip.
pub fn parse_console(line: &str) -> (r: Result<Vec<RunningMsg>, InstallError>)
    ensures
        r matches Ok(v) ==> console_events(line@) == Some(v@),
        r matches Err(e) ==> console_events(line@) is None && e == InstallError::Parse,
{
    let cs = chars_of(line);
    let marker = chars_of("[Chunky]");
    let percent = chars_of("%");
    if !contains(&cs, &marker) || !contains(&cs, &percent) {
        return Ok(Vec::new());
    }
    let n = cs.len();
    let seg = match find_last(&cs, '(') {
        Some(q) => {
            slice_of(&cs, q + 1, n)
        },
        None => {
            let all = slice_of(&cs, 0, cs.len());
            assert(all@ =~= cs@);
            all
        },
    };
    assert(seg@ == last_segment(cs@));
    let pe = find_from(&seg, '%', 0);
    proof {
        lemma_first_from(seg@, '%', 0);
    }
    let ptext = slice_of(&seg, 0, pe);
    let p = match parse_milli(&ptext) {
        Some(p) => p,
        None => {
            return Err(InstallError::Parse);
        },
    };
    let mut out: Vec<RunningMsg> = Vec::new();
    out.push(RunningMsg::Progress(p));
    if p == COMPLETE {
        assert(out@ =~= seq![RunningMsg::Progress(p)]);
        return Ok(out);
    }
    let c = find_from(&seg, ':', 0);
    proof {
        lemma_first_from(seg@, ':', 0);
    }
    if c >= seg.len() {
        return Err(InstallError::Parse);
    }
    let rest = slice_of(&seg, c + 1, seg.len());
    let fe = find_from(&rest, ':', 0);
    proof {
        lemma_first_from(rest@, ':', 0);
    }
    let field = slice_of(&rest, 0, fe);
    let t = trimmed_start(&field);
    let te = find_from(&t, ' ', 0);
    proof {
        lemma_first_from(t@, ' ', 0);
    }
    let rtext = slice_of(&t, 0, te);
    match parse_milli(&rtext) {
        Some(rate) => {
            out.push(RunningMsg::Result(rate));
            assert(out@ =~= seq![RunningMsg::Progress(p), RunningMsg::Result(rate)]);
            Ok(out)
        },
        None => Err(InstallError::Parse),
    }
}

} // verus!
