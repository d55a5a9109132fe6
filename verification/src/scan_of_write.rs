//! That the scanner gives the writer's bytes back tag for tag: scanning a
//! written start, empty or end tag consumes exactly its bytes, yields
//! exactly its name and attributes, and moves on.

use vstd::prelude::*;

use crate::escape::{
    lemma_escape_no_delimiters, lemma_escape_unescape, spec_escape, spec_unescape,
};
use crate::scan::{
    is_name_byte, is_ws, lemma_find_byte, lemma_name_end, lemma_skip_ws, spec_find_byte,
    spec_name_end, spec_parse_attrs, spec_parse_construct, spec_scan, spec_skip_ws, AttrS, TagS,
};
use crate::writer::{
    spec_attr_bytes, spec_attrs_bytes, spec_empty_tag, spec_end_tag, spec_indent, spec_spaces,
    spec_start_tag,
};

verus! {

/// A name the writer gives a tag or an attribute: nonempty, made of name
/// bytes, and not opening an end tag, a comment or a processing
/// instruction.
pub open spec fn wf_name(n: Seq<u8>) -> bool {
    &&& n.len() > 0
    &&& forall|i: int| 0 <= i < n.len() ==> is_name_byte(#[trigger] n[i])
    &&& n[0] != 47
    &&& n[0] != 63
    &&& n[0] != 33
}

/// Every attribute name is a well-formed name.
pub open spec fn wf_attrs(attrs: Seq<AttrS>) -> bool {
    forall|i: int| 0 <= i < attrs.len() ==> wf_name((#[trigger] attrs[i]).name)
}

/// `seg` occupies `s[p..p+seg.len()]`.
pub open spec fn region_is(s: Seq<u8>, p: int, seg: Seq<u8>) -> bool {
    &&& 0 <= p
    &&& p + seg.len() <= s.len()
    &&& s.subrange(p, p + seg.len()) == seg
}

/// A region equality, read byte for byte.
proof fn lemma_region_index(s: Seq<u8>, p: int, seg: Seq<u8>)
    requires
        region_is(s, p, seg),
    ensures
        forall|k: int| 0 <= k < seg.len() ==> s[p + k] == #[trigger] seg[k],
        forall|k: int| p <= k < p + seg.len() ==> #[trigger] s[k] == seg[k - p],
{
    assert forall|k: int| 0 <= k < seg.len() implies s[p + k] == #[trigger] seg[k] by {
        assert(s.subrange(p, p + seg.len())[k] == s[p + k]);
    }
    assert forall|k: int| p <= k < p + seg.len() implies #[trigger] s[k] == seg[k - p] by {
        assert(s.subrange(p, p + seg.len())[k - p] == s[k]);
    }
}

/// Whitespace up to a known non-whitespace byte pins the skip down.
proof fn lemma_skip_ws_at(s: Seq<u8>, p: int, q: int)
    requires
        0 <= p <= q < s.len(),
        forall|k: int| p <= k < q ==> is_ws(#[trigger] s[k]),
        !is_ws(s[q]),
    ensures
        spec_skip_ws(s, p) == q,
{
    lemma_skip_ws(s, p);
}

/// A run of name bytes up to a known non-name byte pins the name end down.
proof fn lemma_name_end_at(s: Seq<u8>, p: int, q: int)
    requires
        0 <= p <= q < s.len(),
        forall|k: int| p <= k < q ==> is_name_byte(#[trigger] s[k]),
        !is_name_byte(s[q]),
    ensures
        spec_name_end(s, p) == q,
{
    lemma_name_end(s, p);
}

/// A gap free of `b` up to a known occurrence pins the find down.
proof fn lemma_find_byte_at(s: Seq<u8>, p: int, q: int, b: u8)
    requires
        0 <= p <= q < s.len(),
        forall|k: int| p <= k < q ==> #[trigger] s[k] != b,
        s[q] == b,
    ensures
        spec_find_byte(s, p, b) == q,
{
    lemma_find_byte(s, p, b);
}

/// Scanning the written bytes of an attribute list followed by its closer
/// (`>` or `/>`) yields exactly those attributes and stops just past the
/// closer.
#[verifier::rlimit(60)]
proof fn lemma_parse_attrs_of_written(
    s: Seq<u8>,
    a: int,
    attrs: Seq<AttrS>,
    close: Seq<u8>,
    acc: Seq<AttrS>,
)
    requires
        wf_attrs(attrs),
        close == seq![62u8] || close == seq![47u8, 62u8],
        region_is(s, a, spec_attrs_bytes(attrs) + close),
    ensures
        spec_parse_attrs(s, a, acc) == Ok::<(Seq<AttrS>, int), ()>(
            (acc + attrs, a + spec_attrs_bytes(attrs).len() + close.len()),
        ),
    decreases attrs.len(),
{
    let seg = spec_attrs_bytes(attrs) + close;
    lemma_region_index(s, a, seg);
    if attrs.len() == 0 {
        assert(spec_attrs_bytes(attrs) == Seq::<u8>::empty());
        assert(seg =~= close);
        assert(s[a] == close[0]);
        assert(!is_ws(s[a]));
        lemma_skip_ws_at(s, a, a);
        if close == seq![62u8] {
            assert(s[a] == 62);
            assert(spec_parse_attrs(s, a, acc) == Ok::<(Seq<AttrS>, int), ()>((acc, a + 1)));
        } else {
            assert(s[a] == 47);
            assert(s[a + 1] == close[1] == 62);
            assert(spec_parse_attrs(s, a, acc) == Ok::<(Seq<AttrS>, int), ()>((acc, a + 2)));
        }
        assert(acc + attrs =~= acc);
    } else {
        let a0 = attrs[0];
        let rest = attrs.skip(1);
        let ab0 = spec_attr_bytes(a0);
        let n = a0.name.len() as int;
        let esc = spec_escape(a0.value);
        let e = esc.len() as int;
        assert(spec_attrs_bytes(attrs) == ab0 + spec_attrs_bytes(rest));
        let tail = spec_attrs_bytes(rest) + close;
        assert(seg =~= ab0 + tail);
        lemma_region_index(s, a, ab0 + tail);
        assert(ab0.len() == 4 + n + e);

        // the bytes of this one attribute, position by position
        assert(ab0 == seq![32u8] + a0.name + seq![61u8, 34u8] + esc + seq![34u8]);
        assert(ab0[0] == 32);
        assert forall|k: int| 0 <= k < n implies ab0[1 + k] == a0.name[k] by {}
        assert(ab0[1 + n] == 61);
        assert(ab0[2 + n] == 34);
        assert forall|k: int| 0 <= k < e implies ab0[3 + n + k] == esc[k] by {}
        assert(ab0[3 + n + e] == 34);

        assert((ab0 + tail)[0] == ab0[0]);
        assert(s[a] == 32);
        assert(wf_name(a0.name));
        assert forall|k: int| a + 1 <= k < a + 1 + n implies #[trigger] s[k] == a0.name[k - a
            - 1] by {
            assert(s[k] == (ab0 + tail)[k - a]);
            assert((ab0 + tail)[k - a] == ab0[k - a]);
            assert(ab0[1 + (k - a - 1)] == a0.name[k - a - 1]);
        }
        assert((ab0 + tail)[1 + n] == ab0[1 + n]);
        assert(s[a + 1 + n] == 61);
        assert((ab0 + tail)[2 + n] == ab0[2 + n]);
        assert(s[a + 2 + n] == 34);
        assert forall|k: int| a + 3 + n <= k < a + 3 + n + e implies #[trigger] s[k] == esc[k - a
            - 3 - n] by {
            assert(s[k] == (ab0 + tail)[k - a]);
            assert((ab0 + tail)[k - a] == ab0[k - a]);
            assert(ab0[3 + n + (k - a - 3 - n)] == esc[k - a - 3 - n]);
        }
        assert((ab0 + tail)[3 + n + e] == ab0[3 + n + e]);
        assert(s[a + 3 + n + e] == 34);

        // whitespace, name, `=`, quote, value, quote
        assert(is_name_byte(a0.name[0]));
        assert(s[a + 1] == a0.name[0]);
        assert(!is_ws(s[a + 1]));
        lemma_skip_ws_at(s, a, a + 1);
        assert(s[a + 1] != 62 && s[a + 1] != 47);
        assert forall|k: int| a + 1 <= k < a + 1 + n implies is_name_byte(#[trigger] s[k]) by {
            assert(s[k] == a0.name[k - a - 1]);
            assert(is_name_byte(a0.name[k - a - 1]));
        }
        assert(!is_name_byte(s[a + 1 + n]));
        lemma_name_end_at(s, a + 1, a + 1 + n);
        assert(s.subrange(a + 1, a + 1 + n) =~= a0.name);
        assert(!is_ws(s[a + 1 + n]));
        lemma_skip_ws_at(s, a + 1 + n, a + 1 + n);
        assert(!is_ws(s[a + 2 + n]));
        lemma_skip_ws_at(s, a + 2 + n, a + 2 + n);
        lemma_escape_no_delimiters(a0.value);
        assert forall|k: int| a + 3 + n <= k < a + 3 + n + e implies #[trigger] s[k] != 34 by {
            assert(s[k] == esc[k - a - 3 - n]);
            assert(spec_escape(a0.value)[k - a - 3 - n] != 34);
        }
        lemma_find_byte_at(s, a + 3 + n, a + 3 + n + e, 34);
        assert(s.subrange(a + 3 + n, a + 3 + n + e) =~= esc);
        lemma_escape_unescape(a0.value);
        assert(spec_unescape(s.subrange(a + 3 + n, a + 3 + n + e)) == Some(a0.value));

        // the recursion continues just past this attribute
        let a2 = a + 4 + n + e;
        assert forall|k: int| 0 <= k < tail.len() implies s[a2 + k] == #[trigger] tail[k] by {
            assert((ab0 + tail)[ab0.len() + k] == tail[k]);
        }
        assert(s.subrange(a2, a2 + tail.len()) =~= tail);
        let pushed = AttrS { name: s.subrange(a + 1, a + 1 + n), value: a0.value };
        assert(pushed == a0);
        lemma_parse_attrs_of_written(s, a2, rest, close, acc.push(a0));
        assert(spec_parse_attrs(s, a, acc) == spec_parse_attrs(s, a2, acc.push(a0)));
        assert(acc.push(a0) + rest =~= acc + attrs);
        assert(a2 + spec_attrs_bytes(rest).len() + close.len() == a + spec_attrs_bytes(
            attrs,
        ).len() + close.len());
    }
}

/// Scanning a written start or empty tag yields its name and attributes and
/// stops just past it.
pub proof fn lemma_parse_construct_of_tag(
    s: Seq<u8>,
    p: int,
    name: Seq<u8>,
    attrs: Seq<AttrS>,
    self_closing: bool,
)
    requires
        wf_name(name),
        wf_attrs(attrs),
        region_is(
            s,
            p,
            if self_closing {
                spec_empty_tag(name, attrs)
            } else {
                spec_start_tag(name, attrs)
            },
        ),
    ensures
        spec_parse_construct(s, p) == Ok::<(Option<TagS>, int), ()>(
            (
                Some(TagS { name, attrs }),
                p + (if self_closing {
                    spec_empty_tag(name, attrs)
                } else {
                    spec_start_tag(name, attrs)
                }).len(),
            ),
        ),
{
    let close: Seq<u8> = if self_closing {
        seq![47u8, 62u8]
    } else {
        seq![62u8]
    };
    let chunk = if self_closing {
        spec_empty_tag(name, attrs)
    } else {
        spec_start_tag(name, attrs)
    };
    let n = name.len() as int;
    let ab = spec_attrs_bytes(attrs);
    assert(chunk =~= seq![60u8] + name + (ab + close));
    lemma_region_index(s, p, chunk);
    assert(chunk[0] == 60);
    assert forall|k: int| 0 <= k < n implies chunk[1 + k] == name[k] by {}
    assert forall|k: int| 0 <= k < ab.len() + close.len() implies chunk[1 + n + k] == (ab
        + close)[k] by {}

    assert(chunk[0] == (seq![60u8] + name + (ab + close))[0]);
    assert(s[p] == 60);
    let tail = ab + close;
    assert forall|k: int| p + 1 <= k < p + 1 + n implies #[trigger] s[k] == name[k - p - 1] by {
        assert(s[k] == chunk[k - p]);
        assert(chunk[k - p] == (seq![60u8] + name + tail)[k - p]);
        assert((seq![60u8] + name + tail)[1 + (k - p - 1)] == name[k - p - 1]);
    }
    assert forall|k: int| 0 <= k < tail.len() implies s[p + 1 + n + k] == #[trigger] tail[k] by {
        assert(s[p + 1 + n + k] == chunk[1 + n + k]);
        assert(chunk[1 + n + k] == (seq![60u8] + name + tail)[1 + n + k]);
    }

    assert(s[p + 1] == name[0]);
    assert(is_name_byte(name[0]));
    assert(s[p + 1] != 47 && s[p + 1] != 63 && s[p + 1] != 33);

    // the byte after the name is a space, `/`, or `>`: never a name byte
    let after = s[p + 1 + n];
    assert(after == tail[0]);
    if attrs.len() == 0 {
        assert(ab == Seq::<u8>::empty());
        assert(tail[0] == close[0]);
        assert(after == 62 || after == 47);
    } else {
        assert(ab == spec_attr_bytes(attrs[0]) + spec_attrs_bytes(attrs.skip(1)));
        assert(spec_attr_bytes(attrs[0])[0] == 32);
        assert(ab[0] == 32);
        assert(tail[0] == 32);
    }
    assert(!is_name_byte(after));
    assert forall|k: int| p + 1 <= k < p + 1 + n implies is_name_byte(#[trigger] s[k]) by {
        assert(s[k] == name[k - p - 1]);
        assert(is_name_byte(name[k - p - 1]));
    }
    lemma_name_end_at(s, p + 1, p + 1 + n);
    assert(s.subrange(p + 1, p + 1 + n) =~= name);

    assert(s.subrange(p + 1 + n, p + 1 + n + tail.len()) =~= tail);
    lemma_parse_attrs_of_written(s, p + 1 + n, attrs, close, Seq::empty());
    assert(Seq::<AttrS>::empty() + attrs =~= attrs);
    let built = TagS { name: s.subrange(p + 1, p + 1 + n), attrs };
    assert(built == (TagS { name, attrs }));
    assert(chunk.len() == 1 + n + ab.len() + close.len());
}

/// Scanning a written end tag yields nothing and stops just past it.
pub proof fn lemma_parse_construct_of_end_tag(s: Seq<u8>, p: int, name: Seq<u8>)
    requires
        wf_name(name),
        region_is(s, p, spec_end_tag(name)),
    ensures
        spec_parse_construct(s, p) == Ok::<(Option<TagS>, int), ()>(
            (None, p + spec_end_tag(name).len()),
        ),
{
    let chunk = spec_end_tag(name);
    let n = name.len() as int;
    lemma_region_index(s, p, chunk);
    assert(chunk =~= seq![60u8, 47u8] + name + seq![62u8]);
    assert(chunk[0] == 60);
    assert(chunk[1] == 47);
    assert(chunk[2 + n] == 62);
    assert(s[p] == 60);
    assert(s[p + 1] == 47);
    assert forall|k: int| p + 2 <= k < p + 2 + n implies #[trigger] s[k] == name[k - p - 2] by {
        assert(s[k] == chunk[k - p]);
        assert(chunk[2 + (k - p - 2)] == name[k - p - 2]);
    }
    assert(s[p + 2 + n] == 62);
    assert(!is_name_byte(s[p + 2 + n]));
    assert forall|k: int| p + 2 <= k < p + 2 + n implies is_name_byte(#[trigger] s[k]) by {
        assert(s[k] == name[k - p - 2]);
        assert(is_name_byte(name[k - p - 2]));
    }
    lemma_name_end_at(s, p + 2, p + 2 + n);
    assert(!is_ws(s[p + 2 + n]));
    lemma_skip_ws_at(s, p + 2 + n, p + 2 + n);
    assert(chunk.len() == 3 + n);
}

/// One scan step: leading whitespace, then a known construct, then the rest
/// of the document. The construct's tag, if it carries one, goes in front
/// of the tags of the rest.
pub proof fn lemma_scan_step(s: Seq<u8>, p: int, w: int, opt: Option<TagS>, end: int)
    requires
        0 <= p,
        p + w < s.len(),
        0 <= w,
        forall|k: int| p <= k < p + w ==> is_ws(#[trigger] s[k]),
        spec_parse_construct(s, p + w) == Ok::<(Option<TagS>, int), ()>((opt, end)),
        s[p + w] == 60,
        p + w < end <= s.len(),
    ensures
        spec_scan(s, p) == (match spec_scan(s, end) {
            Ok(rest) => Ok::<Seq<TagS>, ()>(
                match opt {
                    Some(t) => seq![t] + rest,
                    None => rest,
                },
            ),
            Err(()) => Err::<Seq<TagS>, ()>(()),
        }),
{
    assert forall|k: int| p <= k < p + w implies #[trigger] s[k] != 60 by {
        assert(is_ws(s[k]));
    }
    lemma_find_byte_at(s, p, p + w, 60);
}


/// A region holding a concatenation splits into two adjacent regions.
pub proof fn lemma_region_split(s: Seq<u8>, p: int, x: Seq<u8>, y: Seq<u8>)
    requires
        region_is(s, p, x + y),
    ensures
        region_is(s, p, x),
        region_is(s, p + x.len(), y),
{
    lemma_region_index(s, p, x + y);
    assert forall|k: int| 0 <= k < x.len() implies s.subrange(p, p + x.len())[k] == x[k] by {
        assert(s[p + k] == (x + y)[k]);
    }
    assert(s.subrange(p, p + x.len()) =~= x);
    assert forall|k: int|
        0 <= k < y.len() implies s.subrange(p + x.len(), p + x.len() + y.len())[k] == y[k] by {
        assert(s[p + (x.len() + k)] == (x + y)[x.len() + k]);
        assert(s.subrange(p + x.len(), p + x.len() + y.len())[k] == s[p + x.len() + k]);
    }
    assert(s.subrange(p + x.len(), p + x.len() + y.len()) =~= y);
}

/// Indentation is whitespace throughout.
pub proof fn lemma_indent_ws(d: nat)
    ensures
        forall|k: int| 0 <= k < spec_indent(d).len() ==> is_ws(#[trigger] spec_indent(d)[k]),
{
    lemma_spaces_ws(4 * d);
    assert forall|k: int|
        0 <= k < spec_indent(d).len() implies is_ws(#[trigger] spec_indent(d)[k]) by {
        if k == 0 {
            assert(spec_indent(d)[0] == 10);
        } else {
            assert(spec_indent(d)[k] == spec_spaces(4 * d)[k - 1]);
        }
    }
}

/// Space runs are spaces throughout.
proof fn lemma_spaces_ws(n: nat)
    ensures
        forall|k: int| 0 <= k < spec_spaces(n).len() ==> #[trigger] spec_spaces(n)[k] == 32,
        spec_spaces(n).len() == n,
    decreases n,
{
    if n > 0 {
        lemma_spaces_ws((n - 1) as nat);
        assert forall|k: int|
            0 <= k < spec_spaces(n).len() implies #[trigger] spec_spaces(n)[k] == 32 by {
            if k > 0 {
                assert(spec_spaces(n)[k] == spec_spaces((n - 1) as nat)[k - 1]);
            }
        }
    }
}

/// Scanning from a whitespace run followed by a written start or empty tag:
/// the tag lands in front of whatever the rest of the document scans to.
pub proof fn lemma_scan_ws_tag(
    s: Seq<u8>,
    p: int,
    pre: Seq<u8>,
    name: Seq<u8>,
    attrs: Seq<AttrS>,
    self_closing: bool,
)
    requires
        wf_name(name),
        wf_attrs(attrs),
        forall|k: int| 0 <= k < pre.len() ==> is_ws(#[trigger] pre[k]),
        region_is(
            s,
            p,
            pre + (if self_closing {
                spec_empty_tag(name, attrs)
            } else {
                spec_start_tag(name, attrs)
            }),
        ),
    ensures
        spec_scan(s, p) == (match spec_scan(
            s,
            p + pre.len() + (if self_closing {
                spec_empty_tag(name, attrs)
            } else {
                spec_start_tag(name, attrs)
            }).len(),
        ) {
            Ok(rest) => Ok::<Seq<TagS>, ()>(seq![TagS { name, attrs }] + rest),
            Err(()) => Err::<Seq<TagS>, ()>(()),
        }),
{
    let chunk = if self_closing {
        spec_empty_tag(name, attrs)
    } else {
        spec_start_tag(name, attrs)
    };
    lemma_region_split(s, p, pre, chunk);
    lemma_region_index(s, p, pre);
    lemma_parse_construct_of_tag(s, p + pre.len(), name, attrs, self_closing);
    lemma_region_index(s, p + pre.len(), chunk);
    assert(chunk[0] == 60);
    assert(s[p + pre.len()] == 60);
    assert forall|k: int| p <= k < p + pre.len() implies is_ws(#[trigger] s[k]) by {
        assert(s[k] == pre[k - p]);
    }
    lemma_scan_step(
        s,
        p,
        pre.len() as int,
        Some(TagS { name, attrs }),
        p + pre.len() + chunk.len(),
    );
}

/// Scanning from a whitespace run followed by a written end tag: the end
/// tag adds nothing to the tags of the rest.
pub proof fn lemma_scan_ws_end_tag(s: Seq<u8>, p: int, pre: Seq<u8>, name: Seq<u8>)
    requires
        wf_name(name),
        forall|k: int| 0 <= k < pre.len() ==> is_ws(#[trigger] pre[k]),
        region_is(s, p, pre + spec_end_tag(name)),
    ensures
        spec_scan(s, p) == spec_scan(s, p + pre.len() + spec_end_tag(name).len()),
{
    let chunk = spec_end_tag(name);
    lemma_region_split(s, p, pre, chunk);
    lemma_region_index(s, p, pre);
    lemma_parse_construct_of_end_tag(s, p + pre.len(), name);
    lemma_region_index(s, p + pre.len(), chunk);
    assert(chunk[0] == 60);
    assert(s[p + pre.len()] == 60);
    assert forall|k: int| p <= k < p + pre.len() implies is_ws(#[trigger] s[k]) by {
        assert(s[k] == pre[k - p]);
    }
    lemma_scan_step(s, p, pre.len() as int, None, p + pre.len() + chunk.len());
    match spec_scan(s, p + pre.len() + chunk.len()) {
        Ok(rest) => {},
        Err(()) => {},
    }
}

/// Scanning an empty remainder yields no tags.
pub proof fn lemma_scan_end(s: Seq<u8>, p: int)
    requires
        0 <= p == s.len(),
    ensures
        spec_scan(s, p) == Ok::<Seq<TagS>, ()>(Seq::empty()),
{
    lemma_find_byte(s, p, 60);
}

} // verus!
