use vstd::prelude::*;
use vstd::string::StrSliceExecFns;

use crate::readiness::{digits_value, is_digit, lemma_digits_push};

verus! {

/// Largest process id the listing can name.
pub const MAX_PID: u32 = 4294967295;

/// A piece of text that names a process id: decimal digits only, at most
/// `MAX_PID`.
pub open spec fn is_pid_text(s: Seq<char>) -> bool {
    &&& s.len() > 0
    &&& forall|i: int| 0 <= i < s.len() ==> is_digit(#[trigger] s[i])
    &&& digits_value(s) <= MAX_PID
}

/// The process ids named by the lines of a listing, in order; lines that
/// name none are skipped.
pub open spec fn pids_of(lines: Seq<Seq<char>>) -> Seq<u32>
    decreases lines.len(),
{
    if lines.len() == 0 {
        Seq::empty()
    } else if is_pid_text(lines.last()) {
        pids_of(lines.drop_last()).push(digits_value(lines.last()) as u32)
    } else {
        pids_of(lines.drop_last())
    }
}

/// Reads one line of a port-owner listing as a process id.
pub fn parse_pid(text: &str) -> (r: Option<u32>)
    ensures
        r == (if is_pid_text(text@) {
            Some(digits_value(text@) as u32)
        } else {
            None::<u32>
        }),
{
    let n = text.unicode_len();
    if n == 0 {
        return None;
    }
    let mut value: u64 = 0;
    let mut i: usize = 0;
    while i < n
        invariant
            n == text@.len(),
            0 <= i <= n,
            forall|j: int| 0 <= j < i ==> is_digit(#[trigger] text@[j]),
            value <= MAX_PID as u64 + 1,
            value <= MAX_PID ==> value == digits_value(text@.subrange(0, i as int)),
            value > MAX_PID ==> digits_value(text@.subrange(0, i as int)) > MAX_PID,
        decreases n - i,
    {
        let c = text.get_char(i);
        if !('0' <= c && c <= '9') {
            return None;
        }
        proof {
            assert(text@.subrange(0, i + 1) =~= text@.subrange(0, i as int).push(c));
            lemma_digits_push(text@.subrange(0, i as int), c);
        }
        if value <= MAX_PID as u64 {
            let next = value * 10 + (c as u32 - '0' as u32) as u64;
            value = if next > MAX_PID as u64 { MAX_PID as u64 + 1 } else { next };
        }
        i = i + 1;
    }
    assert(text@.subrange(0, n as int) =~= text@);
    if value <= MAX_PID as u64 {
        Some(value as u32)
    } else {
        None
    }
}

/// Blank characters that may surround a process id in a listing line.
pub open spec fn is_blank(c: char) -> bool {
    c == ' ' || c == '\t' || c == '\r'
}

pub open spec fn trim_start_blank(s: Seq<char>) -> Seq<char>
    decreases s.len(),
{
    if s.len() > 0 && is_blank(s[0]) {
        trim_start_blank(s.drop_first())
    } else {
        s
    }
}

pub open spec fn trim_end_blank(s: Seq<char>) -> Seq<char>
    decreases s.len(),
{
    if s.len() > 0 && is_blank(s.last()) {
        trim_end_blank(s.drop_last())
    } else {
        s
    }
}

/// A line without the blanks at either end.
pub open spec fn trim_blank(s: Seq<char>) -> Seq<char> {
    trim_end_blank(trim_start_blank(s))
}

/// The pieces of `s` between newlines, in order; text without a newline is
/// one piece.
pub open spec fn split_lines(s: Seq<char>) -> Seq<Seq<char>>
    decreases s.len(),
{
    if s.len() == 0 {
        seq![Seq::empty()]
    } else if s.last() == '\n' {
        split_lines(s.drop_last()).push(Seq::empty())
    } else {
        let p = split_lines(s.drop_last());
        p.update(p.len() - 1, p.last().push(s.last()))
    }
}

/// The process ids named by a port-owner listing: one per line, surrounded
/// by blanks or not; lines that name none are skipped.
pub open spec fn listing_pids(s: Seq<char>) -> Seq<u32> {
    pids_of(split_lines(s).map_values(|l: Seq<char>| trim_blank(l)))
}

fn blank_at(text: &str, i: usize) -> (r: bool)
    requires
        i < text@.len(),
    ensures
        r == is_blank(text@[i as int]),
{
    let c = text.get_char(i);
    c == ' ' || c == '\t' || c == '\r'
}

/// Bounds of the text between `from` and `to` without its blanks at either end.
fn trimmed_bounds(text: &str, from: usize, to: usize) -> (r: (usize, usize))
    requires
        from <= to <= text@.len(),
    ensures
        from <= r.0 <= r.1 <= to,
        text@.subrange(r.0 as int, r.1 as int) == trim_blank(text@.subrange(from as int, to as int)),
{
    let mut a: usize = from;
    while a < to && blank_at(text, a)
        invariant
            from <= a <= to <= text@.len(),
            trim_start_blank(text@.subrange(from as int, to as int)) == trim_start_blank(
                text@.subrange(a as int, to as int),
            ),
        decreases to - a,
    {
        assert(text@.subrange(a as int, to as int).drop_first() =~= text@.subrange(
            a + 1,
            to as int,
        ));
        a = a + 1;
    }
    let mut b: usize = to;
    while b > a && blank_at(text, b - 1)
        invariant
            from <= a <= b <= to <= text@.len(),
            trim_start_blank(text@.subrange(from as int, to as int)) == text@.subrange(
                a as int,
                to as int,
            ),
            trim_end_blank(text@.subrange(a as int, to as int)) == trim_end_blank(
                text@.subrange(a as int, b as int),
            ),
        decreases b - a,
    {
        assert(text@.subrange(a as int, b as int).drop_last() =~= text@.subrange(
            a as int,
            b - 1,
        ));
        b = b - 1;
    }
    (a, b)
}

/// The process id named by the piece of `text` between `from` and `to`.
fn pid_in(text: &str, from: usize, to: usize) -> (r: Option<u32>)
    requires
        from <= to <= text@.len(),
    ensures
        r == (if is_pid_text(trim_blank(text@.subrange(from as int, to as int))) {
            Some(digits_value(trim_blank(text@.subrange(from as int, to as int))) as u32)
        } else {
            None::<u32>
        }),
{
    let (a, b) = trimmed_bounds(text, from, to);
    parse_pid(text.substring_char(a, b))
}

/// The process ids named by a port-owner listing, in order. Lines that name
/// no process id are skipped: the reclaim step never fails.
pub fn pids_from_listing(text: &str) -> (r: Vec<u32>)
    ensures
        r@ == listing_pids(text@),
{
    let n = text.unicode_len();
    let mut pids: Vec<u32> = Vec::new();
    let mut start: usize = 0;
    let mut i: usize = 0;
    while i < n
        invariant
            n == text@.len(),
            start <= i <= n,
            split_lines(text@.subrange(0, i as int)).len() >= 1,
            split_lines(text@.subrange(0, i as int)).last() == text@.subrange(
                start as int,
                i as int,
            ),
            pids@ == pids_of(split_lines(text@.subrange(0, i as int)).drop_last().map_values(|l: Seq<char>| trim_blank(l))),
        decreases n - i,
    {
        let ghost prev = split_lines(text@.subrange(0, i as int));
        let c = text.get_char(i);
        proof {
            assert(text@.subrange(0, i + 1).drop_last() =~= text@.subrange(0, i as int));
            assert(text@.subrange(0, i + 1).last() == c);
        }
        if c == '\n' {
            let found = pid_in(text, start, i);
            proof {
                let next = split_lines(text@.subrange(0, i + 1));
                assert(next == prev.push(Seq::empty()));
                assert(next.drop_last() =~= prev);
                let m = prev.map_values(|l: Seq<char>| trim_blank(l));
                assert(m.drop_last() =~= prev.drop_last().map_values(|l: Seq<char>| trim_blank(l)));
                assert(m.len() == prev.len());
                assert(m[m.len() - 1] == trim_blank(prev[prev.len() - 1]));
                assert(next.last() =~= text@.subrange(i + 1, i + 1));
            }
            match found {
                Some(pid) => pids.push(pid),
                None => {},
            }
            start = i + 1;
        } else {
            proof {
                let next = split_lines(text@.subrange(0, i + 1));
                assert(next == prev.update(prev.len() - 1, prev.last().push(c)));
                assert(next.drop_last() =~= prev.drop_last());
                assert(next.last() =~= text@.subrange(start as int, i + 1));
            }
        }
        i = i + 1;
    }
    let found = pid_in(text, start, n);
    proof {
        let all = split_lines(text@.subrange(0, n as int));
        assert(text@.subrange(0, n as int) =~= text@);
        let m = all.map_values(|l: Seq<char>| trim_blank(l));
        assert(m.drop_last() =~= all.drop_last().map_values(|l: Seq<char>| trim_blank(l)));
        assert(m.last() == trim_blank(text@.subrange(start as int, n as int)));
        assert(m =~= split_lines(text@).map_values(|l: Seq<char>| trim_blank(l)));
    }
    match found {
        Some(pid) => pids.push(pid),
        None => {},
    }
    pids
}

} // verus!
