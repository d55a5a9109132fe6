//! A streaming scanner for the XML subset the descriptor files use: start,
//! empty and end tags with double- or single-quoted attribute values,
//! processing instructions and comments (skipped), and arbitrary bytes
//! between tags (ignored). It yields the name and the unescaped attributes
//! of every start or empty tag, in document order; end tags close nothing
//! and carry no data, so they yield no event, and nesting is not enforced —
//! the reader's scan is deliberately flat.
//!
//! Attribute values decode the five standard entities (`&lt; &gt; &amp;
//! &quot; &apos;`), exactly the set the writer emits; any other `&`
//! reference, a truncated construct, a missing `=` or quote, and a `<!`
//! that opens no comment are syntax errors.

use vstd::prelude::*;

use crate::escape::{spec_unescape, unescape};

verus! {

/// XML whitespace.
pub open spec fn is_ws(b: u8) -> bool {
    b == 32 || b == 9 || b == 10 || b == 13
}

/// A byte that may stand in a tag or attribute name: anything but
/// whitespace and the six delimiters `< > / = " '`.
pub open spec fn is_name_byte(b: u8) -> bool {
    !is_ws(b) && b != 60 && b != 62 && b != 47 && b != 61 && b != 34 && b != 39
}

/// First position at or after `p` holding a byte that is not whitespace.
pub open spec fn spec_skip_ws(s: Seq<u8>, p: int) -> int
    decreases s.len() - p,
    when 0 <= p <= s.len()
{
    if p < s.len() && is_ws(s[p]) {
        spec_skip_ws(s, p + 1)
    } else {
        p
    }
}

/// Where `spec_skip_ws` lands: on the first non-whitespace byte, or at the
/// end of the input.
pub proof fn lemma_skip_ws(s: Seq<u8>, p: int)
    requires
        0 <= p <= s.len(),
    ensures
        p <= spec_skip_ws(s, p) <= s.len(),
        forall|k: int| p <= k < spec_skip_ws(s, p) ==> is_ws(#[trigger] s[k]),
        spec_skip_ws(s, p) < s.len() ==> !is_ws(s[spec_skip_ws(s, p)]),
    decreases s.len() - p,
{
    if p < s.len() && is_ws(s[p]) {
        lemma_skip_ws(s, p + 1);
    }
}

/// First position at or after `p` holding a byte that cannot stand in a
/// name.
pub open spec fn spec_name_end(s: Seq<u8>, p: int) -> int
    decreases s.len() - p,
    when 0 <= p <= s.len()
{
    if p < s.len() && is_name_byte(s[p]) {
        spec_name_end(s, p + 1)
    } else {
        p
    }
}

/// Where `spec_name_end` lands: just past the maximal run of name bytes.
pub proof fn lemma_name_end(s: Seq<u8>, p: int)
    requires
        0 <= p <= s.len(),
    ensures
        p <= spec_name_end(s, p) <= s.len(),
        forall|k: int| p <= k < spec_name_end(s, p) ==> is_name_byte(#[trigger] s[k]),
        spec_name_end(s, p) < s.len() ==> !is_name_byte(s[spec_name_end(s, p)]),
    decreases s.len() - p,
{
    if p < s.len() && is_name_byte(s[p]) {
        lemma_name_end(s, p + 1);
    }
}

/// First position at or after `p` holding `b`, or the end of the input.
pub open spec fn spec_find_byte(s: Seq<u8>, p: int, b: u8) -> int
    decreases s.len() - p,
    when 0 <= p <= s.len()
{
    if p < s.len() && s[p] != b {
        spec_find_byte(s, p + 1, b)
    } else {
        p
    }
}

/// Where `spec_find_byte` lands: on the first occurrence of `b`, if any.
pub proof fn lemma_find_byte(s: Seq<u8>, p: int, b: u8)
    requires
        0 <= p <= s.len(),
    ensures
        p <= spec_find_byte(s, p, b) <= s.len(),
        forall|k: int| p <= k < spec_find_byte(s, p, b) ==> #[trigger] s[k] != b,
        spec_find_byte(s, p, b) < s.len() ==> s[spec_find_byte(s, p, b)] == b,
    decreases s.len() - p,
{
    if p < s.len() && s[p] != b {
        lemma_find_byte(s, p + 1, b);
    }
}

/// Position just past the first `?>` at or after `p`, if there is one.
pub open spec fn spec_find_pi_end(s: Seq<u8>, p: int) -> Option<int>
    decreases s.len() - p,
    when 0 <= p <= s.len()
{
    if s.len() < 2 || p > s.len() - 2 {
        None
    } else if s[p] == 63 && s[p + 1] == 62 {
        Some(p + 2)
    } else {
        spec_find_pi_end(s, p + 1)
    }
}

/// Where `spec_find_pi_end` lands.
pub proof fn lemma_find_pi_end(s: Seq<u8>, p: int)
    requires
        0 <= p <= s.len(),
    ensures
        match spec_find_pi_end(s, p) {
            Some(r) => p + 2 <= r <= s.len(),
            None => true,
        },
    decreases s.len() - p,
{
    if p + 2 > s.len() {
    } else if s[p] == 63 && s[p + 1] == 62 {
    } else {
        lemma_find_pi_end(s, p + 1);
    }
}

/// Position just past the first `-->` at or after `p`, if there is one.
pub open spec fn spec_find_comment_end(s: Seq<u8>, p: int) -> Option<int>
    decreases s.len() - p,
    when 0 <= p <= s.len()
{
    if s.len() < 3 || p > s.len() - 3 {
        None
    } else if s[p] == 45 && s[p + 1] == 45 && s[p + 2] == 62 {
        Some(p + 3)
    } else {
        spec_find_comment_end(s, p + 1)
    }
}

/// Where `spec_find_comment_end` lands.
pub proof fn lemma_find_comment_end(s: Seq<u8>, p: int)
    requires
        0 <= p <= s.len(),
    ensures
        match spec_find_comment_end(s, p) {
            Some(r) => p + 3 <= r <= s.len(),
            None => true,
        },
    decreases s.len() - p,
{
    if p + 3 > s.len() {
    } else if s[p] == 45 && s[p + 1] == 45 && s[p + 2] == 62 {
    } else {
        lemma_find_comment_end(s, p + 1);
    }
}

/// Advances over whitespace.
fn skip_ws(s: &[u8], p: usize) -> (r: usize)
    requires
        p <= s@.len(),
    ensures
        r == spec_skip_ws(s@, p as int),
        p <= r <= s@.len(),
{
    let mut i = p;
    while i < s.len() && (s[i] == 32 || s[i] == 9 || s[i] == 10 || s[i] == 13)
        invariant
            p <= i <= s@.len(),
            spec_skip_ws(s@, p as int) == spec_skip_ws(s@, i as int),
        decreases s@.len() - i,
    {
        proof {
            assert(spec_skip_ws(s@, i as int) == spec_skip_ws(s@, i + 1));
        }
        i += 1;
    }
    proof {
        assert(spec_skip_ws(s@, i as int) == i);
    }
    i
}

/// True when the byte may stand in a name.
fn name_byte(b: u8) -> (r: bool)
    ensures
        r == is_name_byte(b),
{
    !(b == 32 || b == 9 || b == 10 || b == 13 || b == 60 || b == 62 || b == 47 || b == 61 || b
        == 34 || b == 39)
}

/// Advances over name bytes.
fn name_end(s: &[u8], p: usize) -> (r: usize)
    requires
        p <= s@.len(),
    ensures
        r == spec_name_end(s@, p as int),
        p <= r <= s@.len(),
{
    let mut i = p;
    while i < s.len() && name_byte(s[i])
        invariant
            p <= i <= s@.len(),
            spec_name_end(s@, p as int) == spec_name_end(s@, i as int),
        decreases s@.len() - i,
    {
        proof {
            assert(spec_name_end(s@, i as int) == spec_name_end(s@, i + 1));
        }
        i += 1;
    }
    proof {
        assert(spec_name_end(s@, i as int) == i);
    }
    i
}

/// Advances to the next occurrence of `b`.
fn find_byte(s: &[u8], p: usize, b: u8) -> (r: usize)
    requires
        p <= s@.len(),
    ensures
        r == spec_find_byte(s@, p as int, b),
        p <= r <= s@.len(),
{
    let mut i = p;
    while i < s.len() && s[i] != b
        invariant
            p <= i <= s@.len(),
            spec_find_byte(s@, p as int, b) == spec_find_byte(s@, i as int, b),
        decreases s@.len() - i,
    {
        proof {
            assert(spec_find_byte(s@, i as int, b) == spec_find_byte(s@, i + 1, b));
        }
        i += 1;
    }
    proof {
        assert(spec_find_byte(s@, i as int, b) == i);
    }
    i
}

/// Advances past the next `?>`.
fn find_pi_end(s: &[u8], p: usize) -> (r: Option<usize>)
    requires
        p <= s@.len(),
    ensures
        match r {
            Some(x) => spec_find_pi_end(s@, p as int) == Some(x as int) && p < x <= s@.len(),
            None => spec_find_pi_end(s@, p as int) is None,
        },
{
    proof {
        lemma_find_pi_end(s@, p as int);
    }
    if s.len() < 2 || p > s.len() - 2 {
        return None;
    }
    let limit = s.len() - 2;
    let mut i = p;
    while i <= limit && !(s[i] == 63 && s[i + 1] == 62)
        invariant
            p <= i <= limit + 1,
            limit == s@.len() - 2,
            s@.len() >= 2,
            spec_find_pi_end(s@, p as int) == spec_find_pi_end(s@, i as int),
        decreases limit + 1 - i,
    {
        proof {
            assert(spec_find_pi_end(s@, i as int) == spec_find_pi_end(s@, i + 1));
        }
        i += 1;
    }
    proof {
        lemma_find_pi_end(s@, i as int);
    }
    if i <= limit {
        proof {
            assert(spec_find_pi_end(s@, i as int) == Some(i + 2));
        }
        Some(i + 2)
    } else {
        proof {
            assert(spec_find_pi_end(s@, i as int) is None);
        }
        None
    }
}

/// Advances past the next `-->`.
fn find_comment_end(s: &[u8], p: usize) -> (r: Option<usize>)
    requires
        p <= s@.len(),
    ensures
        match r {
            Some(x) => spec_find_comment_end(s@, p as int) == Some(x as int) && p < x
                <= s@.len(),
            None => spec_find_comment_end(s@, p as int) is None,
        },
{
    proof {
        lemma_find_comment_end(s@, p as int);
    }
    if s.len() < 3 || p > s.len() - 3 {
        return None;
    }
    let limit = s.len() - 3;
    let mut i = p;
    while i <= limit && !(s[i] == 45 && s[i + 1] == 45 && s[i + 2] == 62)
        invariant
            p <= i <= limit + 1,
            limit == s@.len() - 3,
            s@.len() >= 3,
            spec_find_comment_end(s@, p as int) == spec_find_comment_end(s@, i as int),
        decreases limit + 1 - i,
    {
        proof {
            assert(spec_find_comment_end(s@, i as int) == spec_find_comment_end(s@, i + 1));
        }
        i += 1;
    }
    proof {
        lemma_find_comment_end(s@, i as int);
    }
    if i <= limit {
        proof {
            assert(spec_find_comment_end(s@, i as int) == Some(i + 3));
        }
        Some(i + 3)
    } else {
        proof {
            assert(spec_find_comment_end(s@, i as int) is None);
        }
        None
    }
}


/// One attribute as scanned: its name and its unescaped value.
pub struct AttrS {
    pub name: Seq<u8>,
    pub value: Seq<u8>,
}

/// One scanned tag: its name and its attributes in document order.
pub struct TagS {
    pub name: Seq<u8>,
    pub attrs: Seq<AttrS>,
}

/// Executable form of `AttrS`.
pub struct Attr {
    pub name: Vec<u8>,
    pub value: Vec<u8>,
}

impl View for Attr {
    type V = AttrS;

    open spec fn view(&self) -> AttrS {
        AttrS { name: self.name@, value: self.value@ }
    }
}

/// Executable form of `TagS`.
pub struct Tag {
    pub name: Vec<u8>,
    pub attrs: Vec<Attr>,
}

impl View for Tag {
    type V = TagS;

    open spec fn view(&self) -> TagS {
        TagS { name: self.name@, attrs: self.attrs@.map_values(|a: Attr| a@) }
    }
}

/// Value of the first attribute named `name`, if any.
pub open spec fn spec_attr_of(attrs: Seq<AttrS>, name: Seq<u8>) -> Option<Seq<u8>>
    decreases attrs.len(),
{
    if attrs.len() == 0 {
        None
    } else if attrs[0].name == name {
        Some(attrs[0].value)
    } else {
        spec_attr_of(attrs.skip(1), name)
    }
}

/// Looks up the first attribute named `name`.
pub fn attr_value<'a>(attrs: &'a Vec<Attr>, name: &[u8]) -> (r: Option<&'a Vec<u8>>)
    ensures
        match r {
            Some(v) => spec_attr_of(attrs@.map_values(|a: Attr| a@), name@) == Some(v@),
            None => spec_attr_of(attrs@.map_values(|a: Attr| a@), name@) is None,
        },
{
    let ghost view = attrs@.map_values(|a: Attr| a@);
    let mut i: usize = 0;
    proof {
        assert(view.skip(0) =~= view);
    }
    while i < attrs.len()
        invariant
            i <= attrs@.len(),
            view == attrs@.map_values(|a: Attr| a@),
            spec_attr_of(view, name@) == spec_attr_of(view.skip(i as int), name@),
        decreases attrs@.len() - i,
    {
        proof {
            assert(view.skip(i as int)[0] == view[i as int]);
            assert(view.skip(i as int).skip(1) =~= view.skip(i + 1));
        }
        if crate::bytes_util::bytes_eq(attrs[i].name.as_slice(), name) {
            return Some(&attrs[i].value);
        }
        i += 1;
    }
    proof {
        assert(view.skip(i as int) =~= Seq::<AttrS>::empty());
    }
    None
}

/// Copies `s[a..b]` into a fresh vector.
fn copy_range(s: &[u8], a: usize, b: usize) -> (r: Vec<u8>)
    requires
        a <= b <= s@.len(),
    ensures
        r@ == s@.subrange(a as int, b as int),
{
    let mut r: Vec<u8> = Vec::new();
    let mut i: usize = a;
    while i < b
        invariant
            a <= i <= b <= s@.len(),
            r@ == s@.subrange(a as int, i as int),
        decreases b - i,
    {
        r.push(s[i]);
        i += 1;
        proof {
            assert(r@ =~= s@.subrange(a as int, i as int));
        }
    }
    r
}

/// The attribute list and the position just past the closing `>` or `/>`,
/// scanning from `p` (just past the tag name) on top of the attributes in
/// `acc`; an error on truncated input, a missing `=` or quote, or a bad
/// entity in a value.
pub open spec fn spec_parse_attrs(s: Seq<u8>, p: int, acc: Seq<AttrS>) -> Result<
    (Seq<AttrS>, int),
    (),
>
    decreases s.len() - p,
    when 0 <= p <= s.len()
    via spec_parse_attrs_dec
{
    let q = spec_skip_ws(s, p);
    if q >= s.len() {
        Err(())
    } else if s[q] == 62 {
        Ok((acc, q + 1))
    } else if s[q] == 47 {
        if q + 1 < s.len() && s[q + 1] == 62 {
            Ok((acc, q + 2))
        } else {
            Err(())
        }
    } else {
        let ne = spec_name_end(s, q);
        if ne == q {
            Err(())
        } else {
            let r2 = spec_skip_ws(s, ne);
            if r2 >= s.len() || s[r2] != 61 {
                Err(())
            } else {
                let r3 = spec_skip_ws(s, r2 + 1);
                if r3 >= s.len() || (s[r3] != 34 && s[r3] != 39) {
                    Err(())
                } else {
                    let ve = spec_find_byte(s, r3 + 1, s[r3]);
                    if ve >= s.len() {
                        Err(())
                    } else {
                        match spec_unescape(s.subrange(r3 + 1, ve)) {
                            None => Err(()),
                            Some(val) => spec_parse_attrs(
                                s,
                                ve + 1,
                                acc.push(AttrS { name: s.subrange(q, ne), value: val }),
                            ),
                        }
                    }
                }
            }
        }
    }
}

#[via_fn]
proof fn spec_parse_attrs_dec(s: Seq<u8>, p: int, acc: Seq<AttrS>) {
    if 0 <= p <= s.len() {
        lemma_skip_ws(s, p);
        let q = spec_skip_ws(s, p);
        if q < s.len() && s[q] != 62 && s[q] != 47 {
            lemma_name_end(s, q);
            let ne = spec_name_end(s, q);
            if ne != q {
                lemma_skip_ws(s, ne);
                let r2 = spec_skip_ws(s, ne);
                if r2 < s.len() && s[r2] == 61 {
                    lemma_skip_ws(s, r2 + 1);
                    let r3 = spec_skip_ws(s, r2 + 1);
                    if r3 < s.len() && (s[r3] == 34 || s[r3] == 39) {
                        lemma_find_byte(s, r3 + 1, s[r3]);
                    }
                }
            }
        }
    }
}

/// A successful attribute scan lands past its starting point, within the
/// input.
pub proof fn lemma_parse_attrs_advances(s: Seq<u8>, p: int, acc: Seq<AttrS>)
    requires
        0 <= p <= s.len(),
    ensures
        match spec_parse_attrs(s, p, acc) {
            Ok((_, end)) => p < end <= s.len(),
            Err(()) => true,
        },
    decreases s.len() - p,
{
    lemma_skip_ws(s, p);
    let q = spec_skip_ws(s, p);
    if q < s.len() && s[q] != 62 && s[q] != 47 {
        lemma_name_end(s, q);
        let ne = spec_name_end(s, q);
        if ne != q {
            lemma_skip_ws(s, ne);
            let r2 = spec_skip_ws(s, ne);
            if r2 < s.len() && s[r2] == 61 {
                lemma_skip_ws(s, r2 + 1);
                let r3 = spec_skip_ws(s, r2 + 1);
                if r3 < s.len() && (s[r3] == 34 || s[r3] == 39) {
                    lemma_find_byte(s, r3 + 1, s[r3]);
                    let ve = spec_find_byte(s, r3 + 1, s[r3]);
                    if ve < s.len() {
                        match spec_unescape(s.subrange(r3 + 1, ve)) {
                            None => {},
                            Some(val) => {
                                lemma_parse_attrs_advances(
                                    s,
                                    ve + 1,
                                    acc.push(AttrS { name: s.subrange(q, ne), value: val }),
                                );
                            },
                        }
                    }
                }
            }
        }
    }
}

/// Scans the attribute list from `p`, extending `acc`.
fn parse_attrs(s: &[u8], p: usize, acc: Vec<Attr>) -> (r: Option<(Vec<Attr>, usize)>)
    requires
        p <= s@.len(),
    ensures
        match r {
            Some((attrs, end)) => spec_parse_attrs(s@, p as int, acc@.map_values(|a: Attr| a@))
                == Ok::<_, ()>((attrs@.map_values(|a: Attr| a@), end as int)) && p < end
                <= s@.len(),
            None => spec_parse_attrs(s@, p as int, acc@.map_values(|a: Attr| a@)) is Err,
        },
{
    let ghost acc0 = acc@.map_values(|a: Attr| a@);
    let mut out = acc;
    let mut q0 = p;
    loop
        invariant
            p <= q0 <= s@.len(),
            acc0 == acc@.map_values(|a: Attr| a@),
            spec_parse_attrs(s@, p as int, acc0) == spec_parse_attrs(
                s@,
                q0 as int,
                out@.map_values(|a: Attr| a@),
            ),
        decreases s@.len() - q0,
    {
        let ghost outv = out@.map_values(|a: Attr| a@);
        let q = skip_ws(s, q0);
        if q >= s.len() {
            return None;
        }
        let b = s[q];
        if b == 62 {
            return Some((out, q + 1));
        }
        if b == 47 {
            if q + 1 < s.len() && s[q + 1] == 62 {
                return Some((out, q + 2));
            }
            return None;
        }
        let ne = name_end(s, q);
        if ne == q {
            return None;
        }
        let r2 = skip_ws(s, ne);
        if r2 >= s.len() {
            return None;
        }
        if s[r2] != 61 {
            return None;
        }
        let r3 = skip_ws(s, r2 + 1);
        if r3 >= s.len() {
            return None;
        }
        let quote = s[r3];
        if quote != 34 && quote != 39 {
            return None;
        }
        let ve = find_byte(s, r3 + 1, quote);
        if ve >= s.len() {
            return None;
        }
        let raw = copy_range(s, r3 + 1, ve);
        match unescape(raw.as_slice()) {
            None => {
                return None;
            },
            Some(val) => {
                let name = copy_range(s, q, ne);
                let ghost attrv = AttrS { name: s@.subrange(q as int, ne as int), value: val@ };
                out.push(Attr { name, value: val });
                proof {
                    assert(out@.map_values(|a: Attr| a@) =~= outv.push(attrv));
                }
                q0 = ve + 1;
            },
        }
    }
}

/// What one construct starting at the `<` at `p` means: `Ok` carries the
/// scanned tag (or nothing, for end tags, comments and processing
/// instructions) and the position just past the construct.
pub open spec fn spec_parse_construct(s: Seq<u8>, p: int) -> Result<(Option<TagS>, int), ()> {
    if !(0 <= p && p + 1 < s.len()) {
        Err(())
    } else {
        let c = s[p + 1];
        if c == 47 {
            let ne = spec_name_end(s, p + 2);
            if ne == p + 2 {
                Err(())
            } else {
                let q = spec_skip_ws(s, ne);
                if q < s.len() && s[q] == 62 {
                    Ok((None, q + 1))
                } else {
                    Err(())
                }
            }
        } else if c == 63 {
            match spec_find_pi_end(s, p + 2) {
                Some(r) => Ok((None, r)),
                None => Err(()),
            }
        } else if c == 33 {
            if p + 4 <= s.len() && s[p + 2] == 45 && s[p + 3] == 45 {
                match spec_find_comment_end(s, p + 4) {
                    Some(r) => Ok((None, r)),
                    None => Err(()),
                }
            } else {
                Err(())
            }
        } else {
            let ne = spec_name_end(s, p + 1);
            if ne == p + 1 {
                Err(())
            } else {
                match spec_parse_attrs(s, ne, Seq::empty()) {
                    Ok((attrs, end)) => Ok(
                        (Some(TagS { name: s.subrange(p + 1, ne), attrs }), end),
                    ),
                    Err(()) => Err(()),
                }
            }
        }
    }
}

/// A successful construct scan lands past its starting point, within the
/// input.
pub proof fn lemma_parse_construct_advances(s: Seq<u8>, p: int)
    ensures
        match spec_parse_construct(s, p) {
            Ok((_, end)) => p < end <= s.len(),
            Err(()) => true,
        },
{
    if 0 <= p && p + 1 < s.len() {
        let c = s[p + 1];
        if c == 47 {
            lemma_name_end(s, p + 2);
            let ne = spec_name_end(s, p + 2);
            if ne != p + 2 {
                lemma_skip_ws(s, ne);
            }
        } else if c == 63 {
            lemma_find_pi_end(s, p + 2);
        } else if c == 33 {
            if p + 4 <= s.len() && s[p + 2] == 45 && s[p + 3] == 45 {
                lemma_find_comment_end(s, p + 4);
            }
        } else {
            lemma_name_end(s, p + 1);
            let ne = spec_name_end(s, p + 1);
            if ne != p + 1 {
                lemma_parse_attrs_advances(s, ne, Seq::empty());
            }
        }
    }
}

/// Scans one construct starting at the `<` at `p`.
fn parse_construct(s: &[u8], p: usize) -> (r: Option<(Option<Tag>, usize)>)
    requires
        p < s@.len(),
    ensures
        match r {
            Some((opt, end)) => spec_parse_construct(s@, p as int) == Ok::<_, ()>(
                (
                    match opt {
                        Some(t) => Some(t@),
                        None => None::<TagS>,
                    },
                    end as int,
                ),
            ) && p < end <= s@.len(),
            None => spec_parse_construct(s@, p as int) is Err,
        },
{
    proof {
        lemma_parse_construct_advances(s@, p as int);
    }
    if p >= s.len() - 1 {
        return None;
    }
    let c = s[p + 1];
    if c == 47 {
        let ne = name_end(s, p + 2);
        if ne == p + 2 {
            return None;
        }
        let q = skip_ws(s, ne);
        if q < s.len() && s[q] == 62 {
            Some((None, q + 1))
        } else {
            None
        }
    } else if c == 63 {
        match find_pi_end(s, p + 2) {
            Some(r) => Some((None, r)),
            None => None,
        }
    } else if c == 33 {
        if s.len() >= 4 && p <= s.len() - 4 && s[p + 2] == 45 && s[p + 3] == 45 {
            match find_comment_end(s, p + 4) {
                Some(r) => Some((None, r)),
                None => None,
            }
        } else {
            None
        }
    } else {
        let ne = name_end(s, p + 1);
        if ne == p + 1 {
            return None;
        }
        let empty_attrs: Vec<Attr> = Vec::new();
        proof {
            assert(empty_attrs@.map_values(|a: Attr| a@) =~= Seq::<AttrS>::empty());
        }
        match parse_attrs(s, ne, empty_attrs) {
            None => None,
            Some((attrs, end)) => {
                let name = copy_range(s, p + 1, ne);
                let tag = Tag { name, attrs };
                Some((Some(tag), end))
            },
        }
    }
}

/// Prepends already-scanned tags to the rest of a scan.
pub open spec fn spec_prepend_tags(ts: Seq<TagS>, r: Result<Seq<TagS>, ()>) -> Result<
    Seq<TagS>,
    (),
> {
    match r {
        Ok(rest) => Ok(ts + rest),
        Err(()) => Err(()),
    }
}

/// Every tag of the document from position `p` on, in order; an error if
/// any construct is malformed.
pub open spec fn spec_scan(s: Seq<u8>, p: int) -> Result<Seq<TagS>, ()>
    decreases s.len() - p,
    when 0 <= p <= s.len()
    via spec_scan_dec
{
    let q = spec_find_byte(s, p, 60);
    if q >= s.len() {
        Ok(Seq::empty())
    } else {
        match spec_parse_construct(s, q) {
            Err(()) => Err(()),
            Ok((opt, r)) => {
                if !(q < r <= s.len()) {
                    Err(())
                } else {
                    match spec_scan(s, r) {
                        Err(()) => Err(()),
                        Ok(rest) => Ok(
                            match opt {
                                Some(t) => seq![t] + rest,
                                None => rest,
                            },
                        ),
                    }
                }
            },
        }
    }
}

#[via_fn]
proof fn spec_scan_dec(s: Seq<u8>, p: int) {
    if 0 <= p <= s.len() {
        lemma_find_byte(s, p, 60);
    }
}

/// Scans the whole document into its tags; `None` on malformed input.
pub fn scan(s: &[u8]) -> (r: Option<Vec<Tag>>)
    ensures
        match r {
            Some(tags) => spec_scan(s@, 0) == Ok::<_, ()>(tags@.map_values(|t: Tag| t@)),
            None => spec_scan(s@, 0) is Err,
        },
{
    let mut tags: Vec<Tag> = Vec::new();
    let mut pos: usize = 0;
    let vlen = s.len();
    proof {
        assert(tags@.map_values(|t: Tag| t@) =~= Seq::<TagS>::empty());
    }
    while pos < vlen
        invariant
            pos <= s@.len(),
            vlen == s@.len(),
            spec_scan(s@, 0) == spec_prepend_tags(
                tags@.map_values(|t: Tag| t@),
                spec_scan(s@, pos as int),
            ),
        decreases s@.len() - pos,
    {
        let ghost tags0 = tags@.map_values(|t: Tag| t@);
        let q = find_byte(s, pos, 60);
        proof {
            lemma_find_byte(s@, pos as int, 60);
        }
        if q >= s.len() {
            proof {
                assert(spec_scan(s@, pos as int) == Ok::<_, ()>(Seq::<TagS>::empty()));
                assert(tags0 + Seq::<TagS>::empty() =~= tags0);
            }
            return Some(tags);
        }
        match parse_construct(s, q) {
            None => {
                proof {
                    assert(spec_scan(s@, pos as int) is Err);
                }
                return None;
            },
            Some((opt, end)) => {
                proof {
                    assert(q < end <= s@.len());
                }
                match opt {
                    Some(t) => {
                        let ghost tv = t@;
                        tags.push(t);
                        proof {
                            assert(tags@.map_values(|t: Tag| t@) =~= tags0.push(tv));
                            match spec_scan(s@, end as int) {
                                Ok(rest) => {
                                    assert(tags0 + (seq![tv] + rest) =~= tags0.push(tv) + rest);
                                },
                                Err(()) => {},
                            }
                        }
                    },
                    None => {},
                }
                pos = end;
            },
        }
    }
    proof {
        assert(spec_scan(s@, pos as int) == Ok::<_, ()>(Seq::<TagS>::empty()));
        assert(tags@.map_values(|t: Tag| t@) + Seq::<TagS>::empty() =~= tags@.map_values(
            |t: Tag| t@,
        ));
    }
    Some(tags)
}

} // verus!
