use vstd::prelude::*;

use crate::error::StartError;

verus! {

/// Seconds the supervisor waits for the worker to announce readiness.
pub const STARTUP_TIMEOUT_SECS: u64 = 120;

/// Largest value a port number can take.
pub const MAX_PORT: u16 = 65535;

/// Something that happened on the worker's output while waiting for readiness.
pub enum ReadEvent {
    /// One line of output, without its line terminator.
    Line(String),
    /// The output closed.
    Closed,
    /// The startup bound elapsed.
    TimedOut,
}

/// What the supervisor does after an event on the worker's output.
#[derive(Debug, PartialEq, Eq)]
pub enum ReadStep {
    /// Keep reading.
    Continue,
    /// The worker is listening on this port.
    Ready(u16),
    /// The start has failed.
    Failed(StartError),
}

/// The characters that open a readiness announcement.
pub open spec fn ready_prefix() -> Seq<char> {
    seq!['R', 'E', 'A', 'D', 'Y', ':']
}

pub open spec fn is_digit(c: char) -> bool {
    '0' <= c && c <= '9'
}

pub open spec fn digit_value(c: char) -> nat {
    ((c as u32) as int - ('0' as u32) as int) as nat
}

/// The number written by a sequence of decimal digits.
pub open spec fn digits_value(d: Seq<char>) -> nat
    decreases d.len(),
{
    if d.len() == 0 {
        0
    } else {
        digits_value(d.drop_last()) * 10 + digit_value(d.last())
    }
}

/// A line of the form `READY:<digits>`.
pub open spec fn is_ready_line(s: Seq<char>) -> bool {
    &&& s.len() > ready_prefix().len()
    &&& s.subrange(0, ready_prefix().len() as int) == ready_prefix()
    &&& forall|i: int| ready_prefix().len() <= i < s.len() ==> is_digit(#[trigger] s[i])
}

/// The digits of a readiness announcement.
pub open spec fn ready_digits(s: Seq<char>) -> Seq<char> {
    s.subrange(ready_prefix().len() as int, s.len() as int)
}

/// What one line of output means for the handshake.
pub open spec fn line_step(s: Seq<char>) -> ReadStep {
    if is_ready_line(s) {
        if digits_value(ready_digits(s)) <= MAX_PORT {
            ReadStep::Ready(digits_value(ready_digits(s)) as u16)
        } else {
            ReadStep::Failed(StartError::BadReadyPort)
        }
    } else {
        ReadStep::Continue
    }
}

/// What an event on the worker's output means for the handshake.
pub open spec fn event_step(e: ReadEvent) -> ReadStep {
    match e {
        ReadEvent::Line(l) => line_step(l@),
        ReadEvent::Closed => ReadStep::Failed(StartError::WorkerExitedEarly),
        ReadEvent::TimedOut => ReadStep::Failed(StartError::StartupTimeout),
    }
}

/// The outcome of the handshake on output that consists of `lines` and then
/// closes: the first line that decides, or an early exit.
pub open spec fn scan_outcome(lines: Seq<Seq<char>>) -> ReadStep
    decreases lines.len(),
{
    if lines.len() == 0 {
        ReadStep::Failed(StartError::WorkerExitedEarly)
    } else if line_step(lines[0]) is Continue {
        scan_outcome(lines.drop_first())
    } else {
        line_step(lines[0])
    }
}

/// Appending a digit multiplies the value by ten and adds the digit.
pub proof fn lemma_digits_push(d: Seq<char>, c: char)
    ensures
        digits_value(d.push(c)) == digits_value(d) * 10 + digit_value(c),
{
    assert(d.push(c).drop_last() =~= d);
}

/// Reads one line of the worker's output against the readiness announcement.
pub fn parse_ready_line(line: &str) -> (r: ReadStep)
    ensures
        r == line_step(line@),
{
    let n = line.unicode_len();
    if n <= 6 {
        return ReadStep::Continue;
    }
    let prefix = ['R', 'E', 'A', 'D', 'Y', ':'];
    let mut k: usize = 0;
    while k < 6
        invariant
            n == line@.len(),
            n > 6,
            k <= 6,
            prefix@ == ready_prefix(),
            forall|j: int| 0 <= j < k ==> line@[j] == ready_prefix()[j],
        decreases 6 - k,
    {
        if line.get_char(k) != prefix[k] {
            assert(line@.subrange(0, 6)[k as int] != ready_prefix()[k as int]);
            return ReadStep::Continue;
        }
        k = k + 1;
    }
    assert(line@.subrange(0, 6) =~= ready_prefix());
    let mut value: u32 = 0;
    let mut i: usize = 6;
    while i < n
        invariant
            n == line@.len(),
            6 <= i <= n,
            line@.subrange(0, 6) == ready_prefix(),
            forall|j: int| 6 <= j < i ==> is_digit(#[trigger] line@[j]),
            value <= 65536,
            value <= MAX_PORT ==> value == digits_value(line@.subrange(6, i as int)),
            value > MAX_PORT ==> digits_value(line@.subrange(6, i as int)) > MAX_PORT,
        decreases n - i,
    {
        let c = line.get_char(i);
        if !('0' <= c && c <= '9') {
            return ReadStep::Continue;
        }
        proof {
            assert(line@.subrange(6, i + 1) =~= line@.subrange(6, i as int).push(c));
            lemma_digits_push(line@.subrange(6, i as int), c);
        }
        if value <= 65535 {
            let next = value * 10 + (c as u32 - '0' as u32);
            value = if next > 65535 { 65536 } else { next };
        }
        i = i + 1;
    }
    assert(line@.subrange(6, n as int) =~= ready_digits(line@));
    if value <= 65535 {
        ReadStep::Ready(value as u16)
    } else {
        ReadStep::Failed(StartError::BadReadyPort)
    }
}

/// Decides what one event on the worker's output means for the handshake.
pub fn readiness_step(event: &ReadEvent) -> (r: ReadStep)
    ensures
        r == event_step(*event),
{
    match event {
        ReadEvent::Line(l) => parse_ready_line(l.as_str()),
        ReadEvent::Closed => ReadStep::Failed(StartError::WorkerExitedEarly),
        ReadEvent::TimedOut => ReadStep::Failed(StartError::StartupTimeout),
    }
}

/// Runs the handshake over output that consists of `lines` and then closes.
pub fn scan_lines(lines: &Vec<String>) -> (r: ReadStep)
    ensures
        r == scan_outcome(lines@.map_values(|s: String| s@)),
{
    let ghost all = lines@.map_values(|s: String| s@);
    let mut i: usize = 0;
    assert(all.subrange(0, all.len() as int) =~= all);
    while i < lines.len()
        invariant
            0 <= i <= lines@.len(),
            all == lines@.map_values(|s: String| s@),
            scan_outcome(all) == scan_outcome(all.subrange(i as int, all.len() as int)),
        decreases lines@.len() - i,
    {
        let step = parse_ready_line(lines[i].as_str());
        proof {
            let rest = all.subrange(i as int, all.len() as int);
            assert(rest[0] == lines@[i as int]@);
            assert(rest.drop_first() =~= all.subrange(i + 1, all.len() as int));
        }
        match step {
            ReadStep::Continue => {},
            _ => {
                return step;
            },
        }
        i = i + 1;
    }
    assert(all.subrange(i as int, all.len() as int) =~= Seq::<Seq<char>>::empty());
    ReadStep::Failed(StartError::WorkerExitedEarly)
}

/// Output that closes without any readiness announcement ends the handshake
/// with an early exit.
pub proof fn lemma_no_ready_line_exits_early(lines: Seq<Seq<char>>)
    requires
        forall|i: int| 0 <= i < lines.len() ==> !is_ready_line(#[trigger] lines[i]),
    ensures
        scan_outcome(lines) == ReadStep::Failed(StartError::WorkerExitedEarly),
    decreases lines.len(),
{
    if lines.len() > 0 {
        assert(!is_ready_line(lines[0]));
        assert forall|i: int| 0 <= i < lines.drop_first().len() implies !is_ready_line(
            #[trigger] lines.drop_first()[i],
        ) by {
            assert(lines.drop_first()[i] == lines[i + 1]);
        }
        lemma_no_ready_line_exits_early(lines.drop_first());
    }
}

/// Lines before the first readiness announcement do not change the outcome:
/// output that announces a valid port after any number of other lines ends
/// the handshake on that port, whatever follows.
pub proof fn lemma_first_announcement_decides(
    before: Seq<Seq<char>>,
    line: Seq<char>,
    after: Seq<Seq<char>>,
)
    requires
        forall|i: int| 0 <= i < before.len() ==> !is_ready_line(#[trigger] before[i]),
        is_ready_line(line),
        digits_value(ready_digits(line)) <= MAX_PORT,
    ensures
        scan_outcome(before + seq![line] + after) == ReadStep::Ready(
            digits_value(ready_digits(line)) as u16,
        ),
    decreases before.len(),
{
    let all = before + seq![line] + after;
    if before.len() == 0 {
        assert(all[0] == line);
    } else {
        assert(all[0] == before[0]);
        assert(!is_ready_line(before[0]));
        assert(all.drop_first() =~= before.drop_first() + seq![line] + after);
        assert forall|i: int| 0 <= i < before.drop_first().len() implies !is_ready_line(
            #[trigger] before.drop_first()[i],
        ) by {
            assert(before.drop_first()[i] == before[i + 1]);
        }
        lemma_first_announcement_decides(before.drop_first(), line, after);
    }
}

} // verus!
