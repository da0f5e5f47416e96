//! Parsing the length probe's answer.
//!
//! The probe requests the first byte of the object and reads the total size
//! from the content-range header, `bytes start-end/total`: the total is the
//! token after the final `/`, a decimal non-negative integer.

use vstd::prelude::*;

use crate::errors::{DownloadError, ProbeFault};

verus! {

/// An ASCII decimal digit.
pub open spec fn is_digit(b: u8) -> bool {
    48 <= b <= 57
}

/// Every byte of `s` is a decimal digit.
pub open spec fn all_digits(s: Seq<u8>) -> bool {
    forall|i: int| 0 <= i < s.len() ==> is_digit(#[trigger] s[i])
}

/// The number that the decimal digit string `s` denotes.
pub open spec fn digits_value(s: Seq<u8>) -> int
    decreases s.len(),
{
    if s.len() == 0 {
        0
    } else {
        digits_value(s.drop_last()) * 10 + (s.last() - 48)
    }
}

/// Where the token after the final `/` of `s` starts: just past the last
/// `/`, or `0` if there is none.
pub open spec fn token_start(s: Seq<u8>) -> int
    decreases s.len(),
{
    if s.len() == 0 {
        0
    } else if s.last() == 47 {
        s.len() as int
    } else {
        token_start(s.drop_last())
    }
}

/// The token after the final `/` of `s`; all of `s` if it has no `/`.
pub open spec fn total_token(s: Seq<u8>) -> Seq<u8> {
    s.subrange(token_start(s), s.len() as int)
}

/// The header bytes denote a total: their final token is a nonempty digit
/// string whose value fits a `usize`.
pub open spec fn wellformed_total(s: Seq<u8>) -> bool {
    &&& total_token(s).len() > 0
    &&& all_digits(total_token(s))
    &&& digits_value(total_token(s)) <= usize::MAX
}

proof fn lemma_token_start_bounds(s: Seq<u8>)
    ensures
        0 <= token_start(s) <= s.len(),
        forall|j: int| token_start(s) <= j < s.len() ==> s[j] != 47,
        token_start(s) > 0 ==> s[token_start(s) - 1] == 47,
    decreases s.len(),
{
    if s.len() > 0 && s.last() != 47 {
        lemma_token_start_bounds(s.drop_last());
        assert forall|j: int| token_start(s) <= j < s.len() implies s[j] != 47 by {
            if j < s.len() - 1 {
                assert(s.drop_last()[j] != 47);
                assert(s.drop_last()[j] == s[j]);
            } else {
                assert(s[j] == s.last());
            }
        }
        if token_start(s) > 0 {
            assert(s.drop_last()[token_start(s) - 1] == s[token_start(s) - 1]);
        }
    }
}

/// Find where the total token starts in `h`: one past the last `/`, or `0`.
fn find_token_start(h: &Vec<u8>) -> (r: usize)
    ensures
        r == token_start(h@),
{
    let mut i: usize = h.len();
    proof {
        assert(h@.subrange(0, h@.len() as int) =~= h@);
    }
    loop
        invariant
            0 <= i <= h@.len(),
            token_start(h@) == token_start(h@.subrange(0, i as int)),
        decreases i,
    {
        proof {
            lemma_token_start_bounds(h@.subrange(0, i as int));
        }
        if i == 0 {
            return 0;
        }
        let b = h[i - 1];
        proof {
            assert(h@.subrange(0, i as int).last() == h@[i - 1]);
            assert(h@.subrange(0, i as int).drop_last() =~= h@.subrange(0, i - 1));
        }
        if b == 47 {
            return i;
        }
        i = i - 1;
    }
}

/// Parse the decimal total from the token `h[from..]`. Succeeds exactly when
/// the token is nonempty, all digits, and its value fits a `usize`.
fn parse_total(h: &Vec<u8>, from: usize) -> (r: Option<usize>)
    requires
        from <= h@.len(),
    ensures
        ({
            let tok = h@.subrange(from as int, h@.len() as int);
            match r {
                Some(n) => tok.len() > 0 && all_digits(tok) && n == digits_value(tok),
                None => tok.len() == 0 || !all_digits(tok) || digits_value(tok) > usize::MAX,
            }
        }),
{
    if from == h.len() {
        return None;
    }
    let ghost tok = h@.subrange(from as int, h@.len() as int);
    let mut acc: usize = 0;
    let mut i: usize = from;
    while i < h.len()
        invariant
            from <= i <= h@.len(),
            from < h@.len(),
            tok == h@.subrange(from as int, h@.len() as int),
            all_digits(h@.subrange(from as int, i as int)),
            acc == digits_value(h@.subrange(from as int, i as int)),
        decreases h@.len() - i,
    {
        let b = h[i];
        if b < 48 || b > 57 {
            proof {
                assert(tok[i - from] == h@[i as int]);
            }
            return None;
        }
        let d: usize = (b - 48) as usize;
        let step = match acc.checked_mul(10) {
            Some(t) => t.checked_add(d),
            None => None,
        };
        proof {
            let pre = h@.subrange(from as int, i as int);
            let cur = h@.subrange(from as int, i + 1);
            assert(cur.drop_last() =~= pre);
            assert(cur.last() == h@[i as int]);
            assert(forall|j: int| 0 <= j < pre.len() ==> cur[j] == #[trigger] pre[j]);
            if step is None {
                lemma_digits_value_extends_overflow(tok, cur);
            }
        }
        match step {
            Some(v) => {
                acc = v;
            },
            None => {
                return None;
            },
        }
        i = i + 1;
    }
    proof {
        assert(h@.subrange(from as int, i as int) == tok);
    }
    Some(acc)
}

/// A digit string's value never shrinks as it is extended, so once a prefix
/// of the token overflows `usize`, the whole token does.
proof fn lemma_digits_value_extends_overflow(tok: Seq<u8>, pre: Seq<u8>)
    requires
        pre.len() <= tok.len(),
        forall|j: int| 0 <= j < pre.len() ==> pre[j] == #[trigger] tok[j],
        digits_value(pre) > usize::MAX,
    ensures
        digits_value(tok) > usize::MAX,
    decreases tok.len(),
{
    if pre.len() < tok.len() {
        let t = tok.drop_last();
        lemma_digits_value_extends_overflow(t, pre);
        assert(digits_value(tok) == digits_value(t) * 10 + (tok.last() - 48));
        assert(digits_value(t) * 10 > usize::MAX + 48) by (nonlinear_arith)
            requires
                digits_value(t) > usize::MAX,
        ;
    } else {
        assert(pre =~= tok);
    }
}

/// Read the object's total length out of the probe response's content-range
/// header. `Ok(total)` exactly when the header is present and its final
/// token is a decimal number that fits; otherwise the probe error that says
/// what was wrong.
pub fn probe_total(header: Option<&Vec<u8>>) -> (r: Result<usize, DownloadError>)
    ensures
        match r {
            Ok(n) => header is Some && wellformed_total(header->0@) && n == digits_value(
                total_token(header->0@),
            ),
            Err(e) => match header {
                Some(h) => !wellformed_total(h@) && e == DownloadError::ProbeError(
                    ProbeFault::MalformedContentRange,
                ),
                None => e == DownloadError::ProbeError(ProbeFault::MissingContentRange),
            },
        },
{
    match header {
        None => Err(DownloadError::ProbeError(ProbeFault::MissingContentRange)),
        Some(h) => {
            let start = find_token_start(h);
            proof {
                lemma_token_start_bounds(h@);
            }
            match parse_total(h, start) {
                Some(n) => Ok(n),
                None => Err(DownloadError::ProbeError(ProbeFault::MalformedContentRange)),
            }
        },
    }
}

} // verus!
