//! Decimal rendering and parsing of unsigned machine integers, as the
//! `layer` attribute carries them.

use vstd::prelude::*;

verus! {

/// True for an ASCII decimal digit.
pub open spec fn spec_digit(b: u8) -> bool {
    48 <= b <= 57
}

/// Decimal digits of `n`, most significant first.
pub open spec fn spec_dec(n: nat) -> Seq<u8>
    decreases n,
{
    if n < 10 {
        seq![(48 + n) as u8]
    } else {
        spec_dec(n / 10) + seq![(48 + n % 10) as u8]
    }
}

/// Appends the decimal form of `n` to `out`.
pub fn push_dec(out: &mut Vec<u8>, n: usize)
    ensures
        final(out)@ == old(out)@ + spec_dec(n as nat),
    decreases n,
{
    if n < 10 {
        out.push(48 + (n as u8));
    } else {
        push_dec(out, n / 10);
        out.push(48 + ((n % 10) as u8));
    }
}

/// Value of the digit run `s[i..]` on top of the accumulator `acc`; `None`
/// on a non-digit byte or once the value passes `usize::MAX`.
pub open spec fn spec_parse_digits(s: Seq<u8>, i: int, acc: int) -> Option<int>
    decreases s.len() - i,
    when 0 <= i <= s.len()
{
    if i == s.len() {
        Some(acc)
    } else if !spec_digit(s[i]) {
        None
    } else {
        let acc2 = acc * 10 + (s[i] - 48);
        if acc2 > usize::MAX as int {
            None
        } else {
            spec_parse_digits(s, i + 1, acc2)
        }
    }
}

/// The number `s` denotes in decimal, as the machine parses it: an optional
/// leading `+`, then one or more digits, rejecting empty input, other bytes,
/// and values past `usize::MAX`.
pub open spec fn spec_parse_usize(s: Seq<u8>) -> Option<usize> {
    let t = if s.len() > 0 && s[0] == 43 {
        s.skip(1)
    } else {
        s
    };
    if t.len() == 0 {
        None
    } else {
        match spec_parse_digits(t, 0, 0) {
            Some(v) => Some(v as usize),
            None => None,
        }
    }
}

/// Parses `s` as an unsigned decimal number.
pub fn parse_usize(s: &[u8]) -> (r: Option<usize>)
    ensures
        r == spec_parse_usize(s@),
{
    let ghost t: Seq<u8> = if s@.len() > 0 && s@[0] == 43 {
        s@.skip(1)
    } else {
        s@
    };
    let start: usize = if s.len() > 0 && s[0] == 43 {
        1
    } else {
        0
    };
    proof {
        assert(t.len() == s@.len() - start);
        assert(forall|k: int| 0 <= k < t.len() ==> t[k] == s@[k + start]);
    }
    if s.len() == start {
        return None;
    }
    let mut acc: u128 = 0;
    let mut i: usize = start;
    while i < s.len()
        invariant
            start <= i <= s@.len(),
            start <= 1,
            t == (if s@.len() > 0 && s@[0] == 43 {
                s@.skip(1)
            } else {
                s@
            }),
            start == (if s@.len() > 0 && s@[0] == 43 {
                1usize
            } else {
                0usize
            }),
            t.len() == s@.len() - start,
            forall|k: int| 0 <= k < t.len() ==> t[k] == s@[k + start],
            t.len() > 0,
            acc <= usize::MAX as u128,
            spec_parse_digits(t, 0, 0) == spec_parse_digits(t, i - start, acc as int),
        decreases s@.len() - i,
    {
        let b = s[i];
        proof {
            assert(t[i - start] == s@[i as int]);
        }
        if b < 48 || b > 57 {
            proof {
                assert(spec_parse_digits(t, i - start, acc as int) is None);
            }
            return None;
        }
        let d: u128 = (b - 48) as u128;
        let acc2: u128 = acc * 10 + d;
        if acc2 > usize::MAX as u128 {
            proof {
                assert(acc2 as int == acc as int * 10 + (t[i - start] - 48));
                assert(spec_parse_digits(t, i - start, acc as int) is None);
            }
            return None;
        }
        proof {
            assert(acc2 as int == acc as int * 10 + (t[i - start] - 48));
            assert(spec_parse_digits(t, i - start, acc as int) == spec_parse_digits(
                t,
                i - start + 1,
                acc2 as int,
            ));
        }
        acc = acc2;
        i += 1;
    }
    proof {
        assert(spec_parse_digits(t, i - start, acc as int) == Some(acc as int));
    }
    Some(acc as usize)
}

/// All bytes of `spec_dec(n)` are digits, and there is at least one.
pub proof fn lemma_dec_digits(n: nat)
    ensures
        spec_dec(n).len() >= 1,
        forall|i: int| 0 <= i < spec_dec(n).len() ==> spec_digit(#[trigger] spec_dec(n)[i]),
    decreases n,
{
    if n >= 10 {
        lemma_dec_digits(n / 10);
    }
}

/// Appending one digit multiplies the parsed value by ten and adds it.
proof fn lemma_parse_digits_append(s: Seq<u8>, d: u8, i: int, acc: int)
    requires
        0 <= i <= s.len(),
    ensures
        spec_parse_digits(s + seq![d], i, acc) == (match spec_parse_digits(s, i, acc) {
            Some(v) => if spec_digit(d) && v * 10 + (d - 48) <= usize::MAX as int {
                Some(v * 10 + (d - 48))
            } else {
                None
            },
            None => None,
        }),
    decreases s.len() - i,
{
    let s2 = s + seq![d];
    assert(s2.len() == s.len() + 1);
    if i == s.len() {
        assert(s2[i] == d);
        if spec_digit(d) {
            let acc2 = acc * 10 + (d - 48);
            if acc2 <= usize::MAX as int {
                assert(spec_parse_digits(s2, i + 1, acc2) == Some(acc2));
            }
        }
    } else {
        assert(s2[i] == s[i]);
        if spec_digit(s[i]) {
            let acc2 = acc * 10 + (s[i] - 48);
            if acc2 <= usize::MAX as int {
                lemma_parse_digits_append(s, d, i + 1, acc2);
            }
        }
    }
}

/// Parsing the decimal form of `n` gives back `n`.
pub proof fn lemma_dec_parse_round_trip(n: nat)
    requires
        n <= usize::MAX as nat,
    ensures
        spec_parse_usize(spec_dec(n)) == Some(n as usize),
    decreases n,
{
    lemma_dec_digits(n);
    lemma_dec_round_trip_digits(n);
    assert(spec_dec(n)[0] != 43);
}

/// Parsing the digits of `n` from a zero accumulator gives `n`.
proof fn lemma_dec_round_trip_digits(n: nat)
    requires
        n <= usize::MAX as nat,
    ensures
        spec_parse_digits(spec_dec(n), 0, 0) == Some(n as int),
    decreases n,
{
    lemma_dec_digits(n);
    if n < 10 {
        let s = spec_dec(n);
        assert(s == seq![(48 + n) as u8]);
        assert(s[0] == (48 + n) as u8);
        assert(spec_parse_digits(s, 0, 0) == spec_parse_digits(s, 1, n as int));
        assert(spec_parse_digits(s, 1, n as int) == Some(n as int));
    } else {
        let hi = n / 10;
        let d = (48 + n % 10) as u8;
        lemma_dec_round_trip_digits(hi);
        lemma_parse_digits_append(spec_dec(hi), d, 0, 0);
        assert(hi * 10 + (d - 48) == n) by {
            vstd::arithmetic::div_mod::lemma_fundamental_div_mod(n as int, 10);
        }
        assert(spec_dec(n) == spec_dec(hi) + seq![d]);
    }
}

} // verus!
