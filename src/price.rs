//! Prices as fixed-point decimals and the text of a price notification.
use vstd::prelude::*;
use crate::text::{decimal_digits, digit_char, digit_text, push_decimal};

verus! {

/// A price with four fractional digits: `scaled` is the price times `PRICE_SCALE`.
#[derive(PartialEq, Eq, Structural, Clone, Copy, Debug)]
pub struct Price {
    pub scaled: i64,
}

pub const PRICE_SCALE: u64 = 10000;

pub const FRACTION_DIGITS: u64 = 4;

/// The digits of `f`, zero-padded on the left to exactly `w` digits.
pub open spec fn fraction_digits(f: nat, w: nat) -> Seq<char>
    decreases w,
{
    if w == 0 {
        Seq::empty()
    } else {
        fraction_digits(f / 10, (w - 1) as nat).push(digit_char(f % 10))
    }
}

/// The `w` fractional digits of `f` without their trailing zeros.
pub open spec fn trimmed_fraction(f: nat, w: nat) -> Seq<char>
    decreases w,
{
    if w == 0 {
        Seq::empty()
    } else if f % 10 == 0 {
        trimmed_fraction(f / 10, (w - 1) as nat)
    } else {
        fraction_digits(f, w)
    }
}

/// A non-negative scaled amount in decimal: the whole part, and a point and
/// the fractional digits only where the fraction is not zero.
pub open spec fn magnitude_text(m: nat) -> Seq<char> {
    let whole = decimal_digits(m / PRICE_SCALE as nat);
    let frac = trimmed_fraction(m % PRICE_SCALE as nat, FRACTION_DIGITS as nat);
    if frac.len() == 0 {
        whole
    } else {
        whole + seq!['.'] + frac
    }
}

/// How a price is written: `2`, `92.5`, `-0.0125`.
pub open spec fn price_text(p: Price) -> Seq<char> {
    if p.scaled < 0 {
        seq!['-'] + magnitude_text((-p.scaled) as nat)
    } else {
        magnitude_text(p.scaled as nat)
    }
}

/// A quote and its description, as the rate source gave them.
pub struct Snapshot {
    pub price: Price,
    pub description: String,
}

/// The message that tells a subscriber of a quote: `<price> :: <description>`.
pub open spec fn notification_text(price: Price, description: Seq<char>) -> Seq<char> {
    price_text(price) + seq![' ', ':', ':', ' '] + description
}

proof fn lemma_fraction_digits_len(f: nat, w: nat)
    ensures
        fraction_digits(f, w).len() == w,
    decreases w,
{
    if w > 0 {
        lemma_fraction_digits_len(f / 10, (w - 1) as nat);
    }
}

fn push_fraction_digits(out: &mut String, f: u64, w: u64)
    ensures
        final(out)@ == old(out)@ + fraction_digits(f as nat, w as nat),
    decreases w,
{
    if w > 0 {
        push_fraction_digits(out, f / 10, w - 1);
        out.append(digit_text(f % 10));
        assert(out@ =~= old(out)@ + fraction_digits(f as nat, w as nat));
    } else {
        assert(out@ =~= old(out)@ + fraction_digits(f as nat, w as nat));
    }
}

fn push_magnitude(out: &mut String, m: u64)
    ensures
        final(out)@ == old(out)@ + magnitude_text(m as nat),
{
    push_decimal(out, m / PRICE_SCALE);
    let mut f = m % PRICE_SCALE;
    let mut w = FRACTION_DIGITS;
    while w > 0 && f % 10 == 0
        invariant
            trimmed_fraction(f as nat, w as nat) == trimmed_fraction(
                (m % PRICE_SCALE) as nat,
                FRACTION_DIGITS as nat,
            ),
        decreases w,
    {
        f = f / 10;
        w = w - 1;
    }
    if w > 0 {
        proof {
            reveal_strlit(".");
            lemma_fraction_digits_len(f as nat, w as nat);
        }
        out.append(".");
        push_fraction_digits(out, f, w);
        assert(out@ =~= old(out)@ + magnitude_text(m as nat));
    }
}

/// Appends `price_text(p)` to `out`.
pub fn push_price(out: &mut String, p: Price)
    ensures
        final(out)@ == old(out)@ + price_text(p),
{
    if p.scaled < 0 {
        proof {
            reveal_strlit("-");
        }
        out.append("-");
        push_magnitude(out, (-(p.scaled as i128)) as u64);
        assert(out@ =~= old(out)@ + price_text(p));
    } else {
        push_magnitude(out, p.scaled as u64);
    }
}

impl Snapshot {
    /// The snapshot known before any quote arrives: price zero, no description.
    pub fn initial() -> (r: Snapshot)
        ensures
            r.price.scaled == 0,
            r.description@ == Seq::<char>::empty(),
    {
        Snapshot { price: Price { scaled: 0 }, description: String::new() }
    }

    /// The notification message for this snapshot.
    pub fn notification(&self) -> (r: String)
        ensures
            r@ == notification_text(self.price, self.description@),
    {
        let mut out = String::new();
        push_price(&mut out, self.price);
        proof {
            reveal_strlit(" :: ");
        }
        out.append(" :: ");
        out.append(self.description.as_str());
        assert(out@ =~= notification_text(self.price, self.description@));
        out
    }
}

} // verus!
