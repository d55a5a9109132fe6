//! XML entity escaping of attribute values: the five standard entities on
//! the way out, and their exact inverses on the way in.

use vstd::prelude::*;

use crate::bytes_util::push_bytes;
use crate::tokens::{T_ENT_AMP, T_ENT_APOS, T_ENT_GT, T_ENT_LT, T_ENT_QUOT};

verus! {

/// Wire form of one byte of an attribute value.
pub open spec fn spec_escape_byte(b: u8) -> Seq<u8> {
    if b == 60 {
        seq![38u8] + T_ENT_LT@
    } else if b == 62 {
        seq![38u8] + T_ENT_GT@
    } else if b == 38 {
        seq![38u8] + T_ENT_AMP@
    } else if b == 34 {
        seq![38u8] + T_ENT_QUOT@
    } else if b == 39 {
        seq![38u8] + T_ENT_APOS@
    } else {
        seq![b]
    }
}

/// Wire form of an attribute value.
pub open spec fn spec_escape(s: Seq<u8>) -> Seq<u8>
    decreases s.len(),
{
    if s.len() == 0 {
        Seq::empty()
    } else {
        spec_escape_byte(s[0]) + spec_escape(s.skip(1))
    }
}

/// Escaping distributes over appending one byte.
pub proof fn lemma_escape_push(s: Seq<u8>, b: u8)
    ensures
        spec_escape(s + seq![b]) == spec_escape(s) + spec_escape_byte(b),
    decreases s.len(),
{
    if s.len() == 0 {
        assert((s + seq![b]).len() == 1);
        assert((s + seq![b])[0] == b);
        assert((s + seq![b]).skip(1) =~= Seq::<u8>::empty());
        assert(spec_escape((s + seq![b]).skip(1)) == Seq::<u8>::empty());
        assert(spec_escape(s + seq![b]) == spec_escape_byte(b) + Seq::<u8>::empty());
        assert(spec_escape_byte(b) + Seq::<u8>::empty() =~= spec_escape_byte(b));
        assert(spec_escape(s) == Seq::<u8>::empty());
        assert(Seq::<u8>::empty() + spec_escape_byte(b) =~= spec_escape_byte(b));
    } else {
        assert((s + seq![b])[0] == s[0]);
        assert((s + seq![b]).skip(1) =~= s.skip(1) + seq![b]);
        lemma_escape_push(s.skip(1), b);
        assert(spec_escape(s + seq![b]) =~= spec_escape(s) + spec_escape_byte(b));
    }
}

/// No byte of an escaped value is a double quote or an angle bracket.
pub proof fn lemma_escape_no_delimiters(s: Seq<u8>)
    ensures
        forall|i: int|
            0 <= i < spec_escape(s).len() ==> (#[trigger] spec_escape(s)[i]) != 34
                && spec_escape(s)[i] != 60 && spec_escape(s)[i] != 62,
    decreases s.len(),
{
    if s.len() > 0 {
        lemma_escape_no_delimiters(s.skip(1));
        let b = s[0];
        let eb = spec_escape_byte(b);
        let er = spec_escape(s.skip(1));
        assert forall|i: int| 0 <= i < eb.len() implies eb[i] != 34 && eb[i] != 60 && eb[i]
            != 62 by {
            if b == 60 {
                assert(eb =~= seq![38u8, 108, 116, 59]);
            } else if b == 62 {
                assert(eb =~= seq![38u8, 103, 116, 59]);
            } else if b == 38 {
                assert(eb =~= seq![38u8, 97, 109, 112, 59]);
            } else if b == 34 {
                assert(eb =~= seq![38u8, 113, 117, 111, 116, 59]);
            } else if b == 39 {
                assert(eb =~= seq![38u8, 97, 112, 111, 115, 59]);
            } else {
                assert(eb =~= seq![b]);
            }
        }
        assert forall|i: int|
            0 <= i < spec_escape(s).len() implies (#[trigger] spec_escape(s)[i]) != 34
            && spec_escape(s)[i] != 60 && spec_escape(s)[i] != 62 by {
            assert(spec_escape(s) == eb + er);
            if i < eb.len() {
                assert(spec_escape(s)[i] == eb[i]);
            } else {
                assert(spec_escape(s)[i] == er[i - eb.len()]);
            }
        }
    }
}

/// Appends the wire form of the value `v` to `out`.
pub fn push_escaped(out: &mut Vec<u8>, v: &[u8])
    ensures
        final(out)@ == old(out)@ + spec_escape(v@),
{
    let mut i: usize = 0;
    while i < v.len()
        invariant
            i <= v.len(),
            out@ == old(out)@ + spec_escape(v@.subrange(0, i as int)),
        decreases v.len() - i,
    {
        let b = v[i];
        if b == 60 {
            out.push(38);
            push_bytes(out, &T_ENT_LT);
        } else if b == 62 {
            out.push(38);
            push_bytes(out, &T_ENT_GT);
        } else if b == 38 {
            out.push(38);
            push_bytes(out, &T_ENT_AMP);
        } else if b == 34 {
            out.push(38);
            push_bytes(out, &T_ENT_QUOT);
        } else if b == 39 {
            out.push(38);
            push_bytes(out, &T_ENT_APOS);
        } else {
            out.push(b);
        }
        proof {
            lemma_escape_push(v@.subrange(0, i as int), v@[i as int]);
            assert(v@.subrange(0, i + 1) =~= v@.subrange(0, i as int) + seq![v@[i as int]]);
            assert(out@ =~= old(out)@ + spec_escape(v@.subrange(0, i + 1)));
        }
        i += 1;
    }
    proof {
        assert(v@.subrange(0, v@.len() as int) =~= v@);
    }
}

/// The value a wire form denotes: entity references are folded back into
/// single bytes; a `&` that starts none of the five entities is an error.
pub open spec fn spec_unescape(s: Seq<u8>) -> Option<Seq<u8>>
    decreases s.len(),
{
    if s.len() == 0 {
        Some(Seq::empty())
    } else if s[0] == 38 {
        if s.len() >= 4 && s.subrange(1, 4) == T_ENT_LT@ {
            spec_unescape_cons(60, spec_unescape(s.skip(4)))
        } else if s.len() >= 4 && s.subrange(1, 4) == T_ENT_GT@ {
            spec_unescape_cons(62, spec_unescape(s.skip(4)))
        } else if s.len() >= 5 && s.subrange(1, 5) == T_ENT_AMP@ {
            spec_unescape_cons(38, spec_unescape(s.skip(5)))
        } else if s.len() >= 6 && s.subrange(1, 6) == T_ENT_QUOT@ {
            spec_unescape_cons(34, spec_unescape(s.skip(6)))
        } else if s.len() >= 6 && s.subrange(1, 6) == T_ENT_APOS@ {
            spec_unescape_cons(39, spec_unescape(s.skip(6)))
        } else {
            None
        }
    } else {
        spec_unescape_cons(s[0], spec_unescape(s.skip(1)))
    }
}

/// Prepends one decoded byte to the rest of a decode.
pub open spec fn spec_unescape_cons(b: u8, rest: Option<Seq<u8>>) -> Option<Seq<u8>> {
    match rest {
        Some(r) => Some(seq![b] + r),
        None => None,
    }
}

/// True when `pat` occurs in `v` starting at `i`.
fn match_at(v: &[u8], i: usize, pat: &[u8]) -> (r: bool)
    requires
        i <= v@.len(),
    ensures
        r <==> (i + pat@.len() <= v@.len() && v@.subrange(i as int, i + pat@.len()) == pat@),
{
    if v.len() - i < pat.len() {
        return false;
    }
    let mut j: usize = 0;
    while j < pat.len()
        invariant
            j <= pat@.len(),
            i + pat@.len() <= v@.len(),
            v@.len() <= usize::MAX,
            forall|k: int| 0 <= k < j ==> v@[i + k] == pat@[k],
        decreases pat@.len() - j,
    {
        if v[i + j] != pat[j] {
            proof {
                assert(v@.subrange(i as int, i + pat@.len())[j as int] == v@[i + j]);
            }
            return false;
        }
        j += 1;
    }
    proof {
        assert(v@.subrange(i as int, i + pat@.len()) =~= pat@);
    }
    true
}

/// Decodes the wire form of an attribute value; `None` on a bad entity
/// reference.
pub fn unescape(v: &[u8]) -> (r: Option<Vec<u8>>)
    ensures
        match r {
            Some(u) => spec_unescape(v@) == Some(u@),
            None => spec_unescape(v@) is None,
        },
{
    let mut out: Vec<u8> = Vec::new();
    let mut i: usize = 0;
    let vlen = v.len();
    proof {
        assert(v@.len() == vlen);
        assert(v@.skip(0) =~= v@);
        match spec_unescape(v@) {
            Some(r) => {
                assert(Seq::<u8>::empty() + r =~= r);
            },
            None => {},
        }
    }
    while i < vlen
        invariant
            i <= v@.len(),
            vlen == v@.len(),
            spec_unescape(v@) == spec_unescape_cons_all(out@, spec_unescape(v@.skip(i as int))),
        decreases v@.len() - i,
    {
        let ghost out0 = out@;
        let ghost i0 = i as int;
        let ghost rest = v@.skip(i as int);
        proof {
            assert(rest[0] == v@[i as int]);
        }
        let b = v[i];
        if b == 38 {
            proof {
                assert(rest.len() >= 4 ==> rest.subrange(1, 4) =~= v@.subrange(i + 1, i + 4));
                assert(rest.len() >= 5 ==> rest.subrange(1, 5) =~= v@.subrange(i + 1, i + 5));
                assert(rest.len() >= 6 ==> rest.subrange(1, 6) =~= v@.subrange(i + 1, i + 6));
            }
            if match_at(v, i + 1, &T_ENT_LT) {
                proof {
                    assert(rest.skip(4) =~= v@.skip(i0 + 4));
                }
                out.push(60);
                i += 4;
                proof {
                    lemma_unescape_shift(out0, 60, spec_unescape(v@.skip(i as int)));
                }
            } else if match_at(v, i + 1, &T_ENT_GT) {
                proof {
                    assert(rest.skip(4) =~= v@.skip(i0 + 4));
                }
                out.push(62);
                i += 4;
                proof {
                    lemma_unescape_shift(out0, 62, spec_unescape(v@.skip(i as int)));
                }
            } else if match_at(v, i + 1, &T_ENT_AMP) {
                proof {
                    assert(rest.skip(5) =~= v@.skip(i0 + 5));
                }
                out.push(38);
                i += 5;
                proof {
                    lemma_unescape_shift(out0, 38, spec_unescape(v@.skip(i as int)));
                }
            } else if match_at(v, i + 1, &T_ENT_QUOT) {
                proof {
                    assert(rest.skip(6) =~= v@.skip(i0 + 6));
                }
                out.push(34);
                i += 6;
                proof {
                    lemma_unescape_shift(out0, 34, spec_unescape(v@.skip(i as int)));
                }
            } else if match_at(v, i + 1, &T_ENT_APOS) {
                proof {
                    assert(rest.skip(6) =~= v@.skip(i0 + 6));
                }
                out.push(39);
                i += 6;
                proof {
                    lemma_unescape_shift(out0, 39, spec_unescape(v@.skip(i as int)));
                }
            } else {
                proof {
                    assert(spec_unescape(rest) is None);
                }
                return None;
            }
        } else {
            proof {
                assert(rest.skip(1) =~= v@.skip(i0 + 1));
            }
            out.push(b);
            i += 1;
            proof {
                lemma_unescape_shift(out0, rest[0], spec_unescape(v@.skip(i as int)));
            }
        }
    }
    proof {
        assert(v@.skip(i as int) =~= Seq::<u8>::empty());
        assert(out@ + Seq::<u8>::empty() =~= out@);
    }
    Some(out)
}

/// Moving one decoded byte from the remainder to the prefix changes nothing.
proof fn lemma_unescape_shift(prefix: Seq<u8>, d: u8, r: Option<Seq<u8>>)
    ensures
        spec_unescape_cons_all(prefix, spec_unescape_cons(d, r)) == spec_unescape_cons_all(
            prefix + seq![d],
            r,
        ),
{
    match r {
        Some(rr) => {
            assert(prefix + (seq![d] + rr) =~= (prefix + seq![d]) + rr);
        },
        None => {},
    }
}

/// Prepends an already-decoded prefix to the rest of a decode.
pub open spec fn spec_unescape_cons_all(prefix: Seq<u8>, rest: Option<Seq<u8>>) -> Option<
    Seq<u8>,
> {
    match rest {
        Some(r) => Some(prefix + r),
        None => None,
    }
}

/// Decoding inverts encoding: every value survives the wire unchanged.
pub proof fn lemma_escape_unescape(s: Seq<u8>)
    ensures
        spec_unescape(spec_escape(s)) == Some(s),
    decreases s.len(),
{
    if s.len() == 0 {
    } else {
        lemma_escape_unescape(s.skip(1));
        let b = s[0];
        let e = spec_escape(s);
        let eb = spec_escape_byte(b);
        let er = spec_escape(s.skip(1));
        assert(e == eb + er);
        assert(forall|k: int| 0 <= k < eb.len() ==> e[k] == eb[k]);
        assert(seq![b] + s.skip(1) =~= s);
        if b == 60 {
            assert(e[0] == 38);
            assert(e.subrange(1, 4) =~= T_ENT_LT@);
            assert(e.skip(4) =~= er);
        } else if b == 62 {
            assert(e[0] == 38);
            assert(e.subrange(1, 4) =~= T_ENT_GT@);
            assert(e.subrange(1, 4)[0] == 103);
            assert(T_ENT_LT@[0] == 108);
            assert(e.subrange(1, 4) != T_ENT_LT@);
            assert(e.skip(4) =~= er);
        } else if b == 38 {
            assert(e[0] == 38);
            assert(e.subrange(1, 4)[0] == 97);
            assert(T_ENT_LT@[0] == 108);
            assert(T_ENT_GT@[0] == 103);
            assert(e.subrange(1, 4) != T_ENT_LT@);
            assert(e.subrange(1, 4) != T_ENT_GT@);
            assert(e.subrange(1, 5) =~= T_ENT_AMP@);
            assert(e.skip(5) =~= er);
        } else if b == 34 {
            assert(e[0] == 38);
            assert(e.subrange(1, 4)[0] == 113);
            assert(T_ENT_LT@[0] == 108);
            assert(T_ENT_GT@[0] == 103);
            assert(e.subrange(1, 4) != T_ENT_LT@);
            assert(e.subrange(1, 4) != T_ENT_GT@);
            assert(e.subrange(1, 5)[0] == 113);
            assert(T_ENT_AMP@[0] == 97);
            assert(e.subrange(1, 5) != T_ENT_AMP@);
            assert(e.subrange(1, 6) =~= T_ENT_QUOT@);
            assert(e.skip(6) =~= er);
        } else if b == 39 {
            assert(e[0] == 38);
            assert(e.subrange(1, 4)[0] == 97);
            assert(T_ENT_LT@[0] == 108);
            assert(T_ENT_GT@[0] == 103);
            assert(e.subrange(1, 4) != T_ENT_LT@);
            assert(e.subrange(1, 4) != T_ENT_GT@);
            assert(e.subrange(1, 5)[1] == 112);
            assert(T_ENT_AMP@[1] == 109);
            assert(e.subrange(1, 5) != T_ENT_AMP@);
            assert(e.subrange(1, 6)[0] == 97);
            assert(T_ENT_QUOT@[0] == 113);
            assert(e.subrange(1, 6) != T_ENT_QUOT@);
            assert(e.subrange(1, 6) =~= T_ENT_APOS@);
            assert(e.skip(6) =~= er);
        } else {
            assert(e[0] == b);
            assert(e.skip(1) =~= er);
        }
    }
}

} // verus!
