//! The inbound chat commands: `/subscribe`, `/unsubscribe` and the directive
//! `set:update_interval <N>h` that sets the polling interval to `N` hours.
//!
//! The directive may stand anywhere in the message: the first position at
//! which the keyword is followed by whitespace, a run of ASCII digits and an
//! `h` is the one that counts, and the digits are read as the hour count.
use vstd::prelude::*;
use crate::text::{
    ascii_digit, bounded_digits_value, digits_value, is_ascii_digit, same_text, white_run,
    white_run_from,
};

verus! {

#[derive(PartialEq, Eq, Structural, Clone, Copy, Debug)]
pub enum Command {
    Subscribe,
    Unsubscribe,
    SetUpdateInterval { hours: u64 },
}

/// The largest hour count whose length in seconds fits in a `u64`.
pub const MAX_INTERVAL_HOURS: u64 = 5124095576030431;

pub const SECONDS_PER_HOUR: u64 = 3600;

pub open spec fn subscribe_text() -> Seq<char> {
    "/subscribe"@
}

pub open spec fn unsubscribe_text() -> Seq<char> {
    "/unsubscribe"@
}

pub open spec fn directive_key() -> Seq<char> {
    "set:update_interval"@
}

/// The length of the run of ASCII digits that starts at `p`.
pub open spec fn digit_run(s: Seq<char>, p: int) -> nat
    decreases s.len() - p,
{
    if 0 <= p < s.len() && is_ascii_digit(s[p]) {
        1 + digit_run(s, p + 1)
    } else {
        0
    }
}

/// Where the digits of a directive that starts at `i` begin.
pub open spec fn digits_start(s: Seq<char>, i: int) -> int {
    i + directive_key().len() + white_run(s, i + directive_key().len())
}

/// Where the digits of a directive that starts at `i` end.
pub open spec fn digits_end(s: Seq<char>, i: int) -> int {
    digits_start(s, i) + digit_run(s, digits_start(s, i))
}

/// Whether a directive starts at position `i` of `s`.
pub open spec fn directive_at(s: Seq<char>, i: int) -> bool {
    let k = directive_key().len();
    &&& 0 <= i
    &&& i + k <= s.len()
    &&& s.subrange(i, i + k) == directive_key()
    &&& white_run(s, i + k) > 0
    &&& digit_run(s, digits_start(s, i)) > 0
    &&& digits_end(s, i) < s.len()
    &&& s[digits_end(s, i)] == 'h'
}

/// The first position at or after `i` where a directive starts.
pub open spec fn first_directive(s: Seq<char>, i: int) -> Option<int>
    decreases s.len() - i,
{
    if i < 0 || i >= s.len() {
        None
    } else if directive_at(s, i) {
        Some(i)
    } else {
        first_directive(s, i + 1)
    }
}

/// The hour count of the first directive in `s`, if there is one.
pub open spec fn interval_hours(s: Seq<char>) -> Option<nat> {
    match first_directive(s, 0) {
        Some(i) => Some(digits_value(s.subrange(digits_start(s, i), digits_end(s, i)))),
        None => None,
    }
}

/// The command that the message text `s` carries, if any. An interval whose
/// length in seconds would not fit in a `u64` is no command.
pub open spec fn command_of(s: Seq<char>) -> Option<Command> {
    if s == subscribe_text() {
        Some(Command::Subscribe)
    } else if s == unsubscribe_text() {
        Some(Command::Unsubscribe)
    } else {
        match interval_hours(s) {
            Some(h) => if h <= MAX_INTERVAL_HOURS {
                Some(Command::SetUpdateInterval { hours: h as u64 })
            } else {
                None
            },
            None => None,
        }
    }
}

fn digit_run_from(s: &str, n: usize, p: usize) -> (r: usize)
    requires
        n == s@.len(),
        p <= n,
    ensures
        r == digit_run(s@, p as int),
        p + r <= n,
{
    let mut j = p;
    while j < n && ascii_digit(s.get_char(j))
        invariant
            n == s@.len(),
            p <= j <= n,
            digit_run(s@, p as int) == (j - p) + digit_run(s@, j as int),
        decreases n - j,
    {
        j = j + 1;
    }
    j - p
}

/// Where the digits of the directive that starts at `i` lie, if one does.
fn directive_digits(s: &str, n: usize, i: usize) -> (r: Option<(usize, usize)>)
    requires
        n == s@.len(),
        i < n,
    ensures
        r is Some <==> directive_at(s@, i as int),
        r matches Some((d, e)) ==> d == digits_start(s@, i as int) && e == digits_end(s@, i as int),
{
    let k: usize = 19;
    proof {
        reveal_strlit("set:update_interval");
    }
    if k > n - i {
        return None;
    }
    if !same_text(s.substring_char(i, i + k), "set:update_interval") {
        return None;
    }
    let w = white_run_from(s, n, i + k);
    if w == 0 {
        return None;
    }
    let d = i + k + w;
    let m = digit_run_from(s, n, d);
    if m == 0 {
        return None;
    }
    let e = d + m;
    if e < n && s.get_char(e) == 'h' {
        Some((d, e))
    } else {
        None
    }
}

/// Reads the command that a chat message carries, if any.
pub fn parse_command(text: &str) -> (r: Option<Command>)
    ensures
        r == command_of(text@),
{
    if same_text(text, "/subscribe") {
        return Some(Command::Subscribe);
    }
    if same_text(text, "/unsubscribe") {
        return Some(Command::Unsubscribe);
    }
    let n = text.unicode_len();
    let mut i: usize = 0;
    while i < n
        invariant
            n == text@.len(),
            i <= n,
            first_directive(text@, 0) == first_directive(text@, i as int),
            text@ != subscribe_text(),
            text@ != unsubscribe_text(),
        decreases n - i,
    {
        match directive_digits(text, n, i) {
            Some((d, e)) => {
                proof {
                    assert(first_directive(text@, i as int) == Some(i as int));
                    assert forall|j: int| d <= j < e implies is_ascii_digit(#[trigger] text@[j]) by {
                        lemma_digit_run_digits(text@, d as int, j);
                    }
                }
                return match bounded_digits_value(text, n, d, e, MAX_INTERVAL_HOURS) {
                    Some(h) => Some(Command::SetUpdateInterval { hours: h }),
                    None => None,
                };
            },
            None => {},
        }
        i = i + 1;
    }
    None
}

proof fn lemma_digit_run_digits(s: Seq<char>, p: int, j: int)
    requires
        0 <= p <= j < p + digit_run(s, p),
    ensures
        is_ascii_digit(s[j]),
    decreases j - p,
{
    if j > p {
        lemma_digit_run_digits(s, p + 1, j);
    }
}

} // verus!
