//! Building the byte-range request header for one chunk.
//!
//! A chunk fetch asks the origin for `Range: bytes=start-stop` with
//! inclusive bounds, and the probe for the first byte alone. The header
//! value is rendered here as plain bytes; its numbers are exactly the
//! decimal forms the probe parser reads back.

use vstd::prelude::*;

use crate::probe::{all_digits, digits_value, is_digit};

verus! {

/// The value of a little-endian digit list (least significant digit first).
pub open spec fn lsb_value(s: Seq<u8>) -> int
    decreases s.len(),
{
    if s.len() == 0 {
        0
    } else {
        (s[0] - 48) + 10 * lsb_value(s.drop_first())
    }
}

proof fn lemma_reverse_value(s: Seq<u8>)
    ensures
        digits_value(s.reverse()) == lsb_value(s),
    decreases s.len(),
{
    if s.len() > 0 {
        lemma_reverse_value(s.drop_first());
        assert(s.reverse().drop_last() =~= s.drop_first().reverse());
        assert(s.reverse().last() == s[0]);
    }
}

/// The canonical decimal form of `n`: nonempty, all digits, no leading zero
/// unless `n` itself is zero, and it denotes `n`.
pub open spec fn is_decimal_of(s: Seq<u8>, n: int) -> bool {
    &&& s.len() >= 1
    &&& all_digits(s)
    &&& digits_value(s) == n
    &&& (s.len() > 1 ==> s[0] != 48)
}

/// Render `n` in decimal, as ASCII digit bytes.
pub fn dec_digits(n: usize) -> (r: Vec<u8>)
    ensures
        is_decimal_of(r@, n as int),
{
    if n == 0 {
        let mut out: Vec<u8> = Vec::new();
        out.push(48);
        proof {
            assert(out@.last() == 48);
            assert(out@.drop_last() =~= Seq::<u8>::empty());
            assert(digits_value(Seq::<u8>::empty()) == 0);
            assert(digits_value(out@) == 0);
            assert(forall|j: int| 0 <= j < out@.len() ==> is_digit(#[trigger] out@[j]));
        }
        return out;
    }
    let mut rev: Vec<u8> = Vec::new();
    let mut m: usize = n;
    while m > 0
        invariant
            n >= 1,
            lsb_value(rev@) + m * pow10(rev@.len() as nat) == n,
            forall|j: int| 0 <= j < rev@.len() ==> is_digit(#[trigger] rev@[j]),
            m == 0 ==> rev@.len() >= 1 && rev@.last() != 48,
        decreases m,
    {
        let d: u8 = (m % 10) as u8 + 48;
        let next = m / 10;
        proof {
            let ghost len = rev@.len() as nat;
            lemma_lsb_push(rev@, d);
            assert(m == 10 * next + (m % 10));
            assert(m * pow10(len) == (m % 10) * pow10(len) + next * 10 * pow10(len))
                by (nonlinear_arith)
                requires
                    m == 10 * next + (m % 10),
            ;
            assert(next * (10 * pow10(len)) == next * 10 * pow10(len)) by (nonlinear_arith);
        }
        rev.push(d);
        m = next;
    }
    let mut out: Vec<u8> = Vec::new();
    let mut i: usize = rev.len();
    proof {
        assert(lsb_value(rev@) == n);
        lemma_reverse_value(rev@);
    }
    while i > 0
        invariant
            0 <= i <= rev@.len(),
            out@.len() == rev@.len() - i,
            forall|j: int| 0 <= j < out@.len() ==> out@[j] == rev@[rev@.len() - 1 - j],
        decreases i,
    {
        i = i - 1;
        out.push(rev[i]);
    }
    proof {
        assert(out@ =~= rev@.reverse());
        if out@.len() > 1 {
            assert(out@[0] == rev@.last());
        }
    }
    out
}

/// Ten to the `k`.
pub open spec fn pow10(k: nat) -> int
    decreases k,
{
    if k == 0 {
        1
    } else {
        10 * pow10((k - 1) as nat)
    }
}

proof fn lemma_lsb_push(s: Seq<u8>, d: u8)
    ensures
        lsb_value(s.push(d)) == lsb_value(s) + (d - 48) * pow10(s.len() as nat),
    decreases s.len(),
{
    if s.len() == 0 {
        assert(s.push(d)[0] == d);
        assert(s.push(d).drop_first() =~= s);
    } else {
        lemma_lsb_push(s.drop_first(), d);
        assert(s.push(d).drop_first() =~= s.drop_first().push(d));
        assert(s.push(d)[0] == s[0]);
        let len = s.len() as nat;
        assert(10 * ((d - 48) * pow10((len - 1) as nat)) == (d - 48) * (10 * pow10(
            (len - 1) as nat,
        ))) by (nonlinear_arith);
    }
}

/// The bytes of `bytes=`.
pub open spec fn range_prefix() -> Seq<u8> {
    seq![98u8, 121u8, 116u8, 101u8, 115u8, 61u8]
}

/// The range header value for the inclusive byte range `[start, stop]`:
/// `bytes=` followed by the two bounds in decimal, joined by `-`.
pub open spec fn is_range_header(s: Seq<u8>, start: int, stop: int) -> bool {
    exists|a: Seq<u8>, b: Seq<u8>|
        #![trigger is_decimal_of(a, start), is_decimal_of(b, stop)]
        {
            &&& is_decimal_of(a, start)
            &&& is_decimal_of(b, stop)
            &&& s == range_prefix() + a + (seq![45u8] + b)
        }
}

/// Render the range header value for one chunk's fetch, `bytes=start-stop`.
pub fn range_header_bytes(start: usize, stop: usize) -> (r: Vec<u8>)
    ensures
        is_range_header(r@, start as int, stop as int),
{
    let mut out: Vec<u8> = Vec::new();
    out.push(98);
    out.push(121);
    out.push(116);
    out.push(101);
    out.push(115);
    out.push(61);
    let ghost prefix = out@;
    let a = dec_digits(start);
    let mut k: usize = 0;
    while k < a.len()
        invariant
            0 <= k <= a@.len(),
            out@ == prefix + a@.subrange(0, k as int),
        decreases a@.len() - k,
    {
        out.push(a[k]);
        k = k + 1;
        proof {
            assert(prefix + a@.subrange(0, k as int) =~= (prefix + a@.subrange(
                0,
                k - 1,
            )).push(a@[k - 1]));
        }
    }
    proof {
        assert(a@.subrange(0, a@.len() as int) =~= a@);
    }
    out.push(45);
    let ghost mid = out@;
    let b = dec_digits(stop);
    let mut k2: usize = 0;
    while k2 < b.len()
        invariant
            0 <= k2 <= b@.len(),
            out@ == mid + b@.subrange(0, k2 as int),
        decreases b@.len() - k2,
    {
        out.push(b[k2]);
        k2 = k2 + 1;
        proof {
            assert(mid + b@.subrange(0, k2 as int) =~= (mid + b@.subrange(0, k2 - 1)).push(
                b@[k2 - 1],
            ));
        }
    }
    proof {
        assert(b@.subrange(0, b@.len() as int) =~= b@);
        assert(prefix =~= range_prefix());
        assert(out@ =~= range_prefix() + a@ + (seq![45u8] + b@));
    }
    out
}

/// The probe's range header value, `bytes=0-0`: a request for the first
/// byte alone.
pub fn probe_header_bytes() -> (r: Vec<u8>)
    ensures
        is_range_header(r@, 0, 0),
{
    range_header_bytes(0, 0)
}

} // verus!
