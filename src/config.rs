//! The process configuration: the polling cadence that the command
//! dispatcher writes and the rate observer reads before each sleep, and the
//! list of chats subscribed from the start.
use vstd::prelude::*;
use crate::text::{ascii_digit, bounded_digits_value, digits_value, is_ascii_digit};

verus! {

/// Three hours.
pub const DEFAULT_POLL_INTERVAL_SECS: u64 = 10800;

pub struct SchedulingConfig {
    poll_interval_secs: u64,
}

impl View for SchedulingConfig {
    type V = u64;

    closed spec fn view(&self) -> u64 {
        self.poll_interval_secs
    }
}

impl SchedulingConfig {
    pub fn new() -> (r: SchedulingConfig)
        ensures
            r@ == DEFAULT_POLL_INTERVAL_SECS,
    {
        SchedulingConfig { poll_interval_secs: DEFAULT_POLL_INTERVAL_SECS }
    }

    /// The poll interval, in seconds.
    pub fn get(&self) -> (r: u64)
        ensures
            r == self@,
    {
        self.poll_interval_secs
    }

    /// Sets the poll interval, in seconds.
    pub fn set(&mut self, secs: u64)
        ensures
            final(self)@ == secs,
    {
        self.poll_interval_secs = secs;
    }
}

/// The pieces of `s` between its commas.
pub open spec fn comma_pieces(s: Seq<char>) -> Seq<Seq<char>>
    decreases s.len(),
{
    if s.len() == 0 {
        seq![Seq::empty()]
    } else {
        let p = comma_pieces(s.drop_last());
        if s.last() == ',' {
            p.push(Seq::empty())
        } else {
            p.update(p.len() - 1, p.last().push(s.last()))
        }
    }
}

/// The digits of a chat id, after its sign if it has one.
pub open spec fn unsigned_part(p: Seq<char>) -> Seq<char> {
    if p.len() > 0 && (p[0] == '-' || p[0] == '+') {
        p.subrange(1, p.len() as int)
    } else {
        p
    }
}

/// The chat id that `p` spells: an optional sign, then one or more ASCII
/// digits, within the range of an `i64`.
pub open spec fn chat_id_of(p: Seq<char>) -> Option<i64> {
    let digits = unsigned_part(p);
    let v = digits_value(digits);
    if digits.len() == 0 || !(forall|j: int| 0 <= j < digits.len() ==> is_ascii_digit(#[trigger] digits[j])) {
        None
    } else if p[0] == '-' {
        if v <= 9223372036854775808 {
            Some((-v) as i64)
        } else {
            None
        }
    } else if v <= 9223372036854775807 {
        Some(v as i64)
    } else {
        None
    }
}

/// The chat ids of the pieces, skipping empty ones; `None` when a piece is
/// no chat id.
pub open spec fn chat_ids_of(pieces: Seq<Seq<char>>) -> Option<Seq<i64>>
    decreases pieces.len(),
{
    if pieces.len() == 0 {
        Some(Seq::empty())
    } else {
        match chat_ids_of(pieces.drop_last()) {
            None => None,
            Some(ids) => if pieces.last().len() == 0 {
                Some(ids)
            } else {
                match chat_id_of(pieces.last()) {
                    Some(v) => Some(ids.push(v)),
                    None => None,
                }
            },
        }
    }
}

/// Reads one chat id.
pub fn parse_chat_id(s: &str) -> (r: Option<i64>)
    ensures
        r == chat_id_of(s@),
{
    let n = s.unicode_len();
    if n == 0 {
        return None;
    }
    let c0 = s.get_char(0);
    let start: usize = if c0 == '-' || c0 == '+' {
        1
    } else {
        0
    };
    let ghost digits = unsigned_part(s@);
    assert(digits =~= s@.subrange(start as int, n as int));
    if start == n {
        return None;
    }
    let mut j = start;
    while j < n
        invariant
            n == s@.len(),
            start <= j <= n,
            digits == unsigned_part(s@),
            digits == s@.subrange(start as int, n as int),
            forall|t: int| start <= t < j ==> is_ascii_digit(#[trigger] s@[t]),
        decreases n - j,
    {
        if !ascii_digit(s.get_char(j)) {
            assert(!is_ascii_digit(digits[j - start]));
            return None;
        }
        j = j + 1;
    }
    assert forall|t: int| 0 <= t < digits.len() implies is_ascii_digit(#[trigger] digits[t]) by {
        assert(digits[t] == s@[t + start]);
    }
    let negative = c0 == '-';
    let cap: u64 = if negative {
        9223372036854775808
    } else {
        9223372036854775807
    };
    assert forall|t: int| start <= t < n implies is_ascii_digit(#[trigger] s@[t]) by {
        assert(s@[t] == digits[t - start]);
    }
    match bounded_digits_value(s, n, start, n, cap) {
        None => None,
        Some(v) => if negative {
            if v == 9223372036854775808 {
                Some(i64::MIN)
            } else {
                Some(-(v as i64))
            }
        } else {
            Some(v as i64)
        },
    }
}

/// Reads a comma-separated list of chat ids, skipping empty pieces; `None`
/// when a piece is no chat id.
pub fn parse_chat_ids(s: &str) -> (r: Option<Vec<i64>>)
    ensures
        match chat_ids_of(comma_pieces(s@)) {
            Some(ids) => r matches Some(v) && v@ == ids,
            None => r is None,
        },
{
    let n = s.unicode_len();
    let mut ids: Vec<i64> = Vec::new();
    let mut ok = true;
    let mut start: usize = 0;
    let mut i: usize = 0;
    let ghost mut done: Seq<Seq<char>> = Seq::empty();
    assert(s@.subrange(0, 0) =~= Seq::<char>::empty());
    assert(comma_pieces(s@.subrange(0, 0)) =~= done.push(s@.subrange(0, 0)));
    while i < n
        invariant
            n == s@.len(),
            start <= i <= n,
            comma_pieces(s@.subrange(0, i as int)) == done.push(s@.subrange(start as int, i as int)),
            ok ==> chat_ids_of(done) == Some(ids@),
            !ok ==> chat_ids_of(done) is None,
        decreases n - i,
    {
        assert(s@.subrange(0, i + 1).drop_last() =~= s@.subrange(0, i as int));
        assert(s@.subrange(0, i + 1).last() == s@[i as int]);
        if s.get_char(i) == ',' {
            let piece = s.substring_char(start, i);
            if ok && i > start {
                match parse_chat_id(piece) {
                    Some(v) => ids.push(v),
                    None => ok = false,
                }
            }
            proof {
                let d2 = done.push(s@.subrange(start as int, i as int));
                assert(d2.drop_last() =~= done);
                done = d2;
                assert(s@.subrange(i + 1, i + 1) =~= Seq::<char>::empty());
                assert(comma_pieces(s@.subrange(0, i + 1)) =~= done.push(
                    s@.subrange(i + 1, i + 1),
                ));
            }
            start = i + 1;
        } else {
            assert(s@.subrange(start as int, i as int).push(s@[i as int]) =~= s@.subrange(
                start as int,
                i + 1,
            ));
            assert(comma_pieces(s@.subrange(0, i + 1)) =~= done.push(
                s@.subrange(start as int, i + 1),
            ));
        }
        i = i + 1;
    }
    let piece = s.substring_char(start, n);
    if ok && n > start {
        match parse_chat_id(piece) {
            Some(v) => ids.push(v),
            None => ok = false,
        }
    }
    proof {
        let all = done.push(s@.subrange(start as int, n as int));
        assert(all.drop_last() =~= done);
        assert(s@.subrange(0, n as int) =~= s@);
    }
    if ok {
        Some(ids)
    } else {
        None
    }
}

} // verus!
