//! The writer: turns a configuration into the descriptor document, byte for
//! byte as `spec_write` states it — a fixed tag nesting, four-space
//! indentation, attribute values entity-escaped, empty runnables written
//! self-closing, and empty sections omitted entirely.

use vstd::prelude::*;

use crate::bytes_util::{copy_bytes, push_bytes};
use crate::escape::{push_escaped, spec_escape};
use crate::model::{UiParameter, UiParameterV, UiRunnable, UiRunnableV, ParameterType, XmlConfig, XmlConfigV};
use crate::numbers::{push_dec, spec_dec};
use crate::scan::{Attr, AttrS};
use crate::tokens::{
    T_ALIGN, T_CONSTRAINTS, T_DESC, T_DYNAMIC, T_EVENT, T_EVENTS, T_FILE, T_FSCOMMAND,
    T_FULLSCREEN, T_FUNCNAME, T_FUNCTION, T_FUNCTIONS, T_GFX, T_HALIGN, T_LAYER, T_MAXIMIZE,
    T_MODE, T_NAME, T_ONE, T_PARAM, T_SCALE, T_TYPE, T_UIELEMENT, T_UIELEMENTS, T_VALIGN,
};

verus! {

/// `n` space bytes.
pub open spec fn spec_spaces(n: nat) -> Seq<u8>
    decreases n,
{
    if n == 0 {
        Seq::empty()
    } else {
        seq![32u8] + spec_spaces((n - 1) as nat)
    }
}

/// One more space on the right.
proof fn lemma_spaces_push(n: nat)
    ensures
        spec_spaces(n + 1) == spec_spaces(n) + seq![32u8],
    decreases n,
{
    if n == 0 {
        assert(spec_spaces(1) =~= spec_spaces(0) + seq![32u8]);
    } else {
        lemma_spaces_push((n - 1) as nat);
        assert(spec_spaces(n + 1) =~= spec_spaces(n) + seq![32u8]);
    }
}

/// A line break followed by the indentation of nesting depth `d`.
pub open spec fn spec_indent(d: nat) -> Seq<u8> {
    seq![10u8] + spec_spaces(4 * d)
}

/// Appends a line break and `d` levels of indentation.
pub fn push_indent(out: &mut Vec<u8>, d: usize)
    requires
        d <= 8,
    ensures
        final(out)@ == old(out)@ + spec_indent(d as nat),
{
    out.push(10);
    let total: usize = 4 * d;
    let mut k: usize = 0;
    proof {
        assert(out@ =~= old(out)@ + seq![10u8] + spec_spaces(0));
    }
    while k < total
        invariant
            k <= total,
            total == 4 * d,
            out@ == old(out)@ + seq![10u8] + spec_spaces(k as nat),
        decreases total - k,
    {
        out.push(32);
        proof {
            lemma_spaces_push(k as nat);
            assert(out@ =~= old(out)@ + seq![10u8] + spec_spaces((k + 1) as nat));
        }
        k += 1;
    }
    proof {
        assert(old(out)@ + seq![10u8] + spec_spaces(4 * d as nat) =~= old(out)@ + spec_indent(
            d as nat,
        ));
    }
}

/// Wire form of one attribute: a leading space, the name, `="`, the escaped
/// value, and the closing quote.
pub open spec fn spec_attr_bytes(a: AttrS) -> Seq<u8> {
    seq![32u8] + a.name + seq![61u8, 34u8] + spec_escape(a.value) + seq![34u8]
}

/// Wire form of an attribute list.
pub open spec fn spec_attrs_bytes(attrs: Seq<AttrS>) -> Seq<u8>
    decreases attrs.len(),
{
    if attrs.len() == 0 {
        Seq::empty()
    } else {
        spec_attr_bytes(attrs[0]) + spec_attrs_bytes(attrs.skip(1))
    }
}

/// One more attribute on the right.
proof fn lemma_attrs_bytes_push(attrs: Seq<AttrS>, a: AttrS)
    ensures
        spec_attrs_bytes(attrs.push(a)) == spec_attrs_bytes(attrs) + spec_attr_bytes(a),
    decreases attrs.len(),
{
    if attrs.len() == 0 {
        assert(attrs.push(a)[0] == a);
        assert(attrs.push(a).skip(1) =~= Seq::<AttrS>::empty());
        assert(spec_attrs_bytes(attrs.push(a).skip(1)) == Seq::<u8>::empty());
        assert(spec_attrs_bytes(attrs.push(a)) == spec_attr_bytes(a) + Seq::<u8>::empty());
        assert(spec_attrs_bytes(attrs.push(a)) =~= spec_attrs_bytes(attrs) + spec_attr_bytes(a));
    } else {
        assert(attrs.push(a)[0] == attrs[0]);
        assert(attrs.push(a).skip(1) =~= attrs.skip(1).push(a));
        lemma_attrs_bytes_push(attrs.skip(1), a);
        assert(spec_attrs_bytes(attrs.push(a)) == spec_attr_bytes(attrs[0]) + spec_attrs_bytes(
            attrs.skip(1).push(a),
        ));
        assert(spec_attrs_bytes(attrs) == spec_attr_bytes(attrs[0]) + spec_attrs_bytes(
            attrs.skip(1),
        ));
        assert(spec_attrs_bytes(attrs.push(a)) =~= spec_attrs_bytes(attrs) + spec_attr_bytes(a));
    }
}

/// Wire form of a start tag `<name a="v" ...>`.
pub open spec fn spec_start_tag(name: Seq<u8>, attrs: Seq<AttrS>) -> Seq<u8> {
    seq![60u8] + name + spec_attrs_bytes(attrs) + seq![62u8]
}

/// Wire form of an empty tag `<name a="v" .../>`.
pub open spec fn spec_empty_tag(name: Seq<u8>, attrs: Seq<AttrS>) -> Seq<u8> {
    seq![60u8] + name + spec_attrs_bytes(attrs) + seq![47u8, 62u8]
}

/// Wire form of an end tag `</name>`.
pub open spec fn spec_end_tag(name: Seq<u8>) -> Seq<u8> {
    seq![60u8, 47u8] + name + seq![62u8]
}

/// Appends a start or empty tag with the given attributes.
fn push_tag(out: &mut Vec<u8>, name: &[u8], attrs: &Vec<Attr>, self_closing: bool)
    ensures
        final(out)@ == old(out)@ + (if self_closing {
            spec_empty_tag(name@, attrs@.map_values(|a: Attr| a@))
        } else {
            spec_start_tag(name@, attrs@.map_values(|a: Attr| a@))
        }),
{
    let ghost attrsv = attrs@.map_values(|a: Attr| a@);
    out.push(60);
    push_bytes(out, name);
    let ghost head = old(out)@ + seq![60u8] + name@;
    proof {
        assert(out@ =~= head);
    }
    let mut i: usize = 0;
    proof {
        assert(out@ =~= head + spec_attrs_bytes(attrsv.subrange(0, 0)));
    }
    while i < attrs.len()
        invariant
            i <= attrs@.len(),
            attrsv == attrs@.map_values(|a: Attr| a@),
            out@ == head + spec_attrs_bytes(attrsv.subrange(0, i as int)),
        decreases attrs@.len() - i,
    {
        let ghost pre = attrsv.subrange(0, i as int);
        out.push(32);
        push_bytes(out, attrs[i].name.as_slice());
        out.push(61);
        out.push(34);
        push_escaped(out, attrs[i].value.as_slice());
        out.push(34);
        proof {
            assert(out@ =~= head + spec_attrs_bytes(pre) + spec_attr_bytes(attrsv[i as int]));
            lemma_attrs_bytes_push(pre, attrsv[i as int]);
            assert(attrsv.subrange(0, i + 1) =~= pre.push(attrsv[i as int]));
            assert(out@ =~= head + spec_attrs_bytes(attrsv.subrange(0, i + 1)));
        }
        i += 1;
    }
    proof {
        assert(attrsv.subrange(0, attrsv.len() as int) =~= attrsv);
    }
    if self_closing {
        out.push(47);
        out.push(62);
        proof {
            assert(out@ =~= old(out)@ + spec_empty_tag(name@, attrsv));
        }
    } else {
        out.push(62);
        proof {
            assert(out@ =~= old(out)@ + spec_start_tag(name@, attrsv));
        }
    }
}

/// Appends an end tag.
fn push_end_tag(out: &mut Vec<u8>, name: &[u8])
    ensures
        final(out)@ == old(out)@ + spec_end_tag(name@),
{
    out.push(60);
    out.push(47);
    push_bytes(out, name);
    out.push(62);
    proof {
        assert(out@ =~= old(out)@ + spec_end_tag(name@));
    }
}

/// Builds one attribute value pair from borrowed bytes.
fn attr_of(name: &[u8], value: &[u8]) -> (r: Attr)
    ensures
        r@ == (AttrS { name: name@, value: value@ }),
{
    Attr { name: copy_bytes(name), value: copy_bytes(value) }
}

/// The `Align` attributes: fullscreen mode suppresses the alignment pair
/// entirely; windowed mode writes the canonical alignment texts.
pub open spec fn spec_align_attrs(c: XmlConfigV) -> Seq<AttrS> {
    if c.fullscreen {
        seq![
            AttrS { name: T_MODE@, value: T_FULLSCREEN@ },
            AttrS { name: T_SCALE@, value: T_ONE@ },
            AttrS { name: T_MAXIMIZE@, value: T_ONE@ },
        ]
    } else {
        seq![
            AttrS { name: T_MODE@, value: T_DYNAMIC@ },
            AttrS { name: T_VALIGN@, value: c.valign.spec_text() },
            AttrS { name: T_HALIGN@, value: c.halign.spec_text() },
        ]
    }
}

/// The attributes of one `<param>` tag: the description only when nonempty,
/// the type only when declared and not `Any`.
pub open spec fn spec_param_attrs(p: UiParameterV) -> Seq<AttrS> {
    seq![AttrS { name: T_NAME@, value: p.name }] + (if p.description.len() > 0 {
        seq![AttrS { name: T_DESC@, value: p.description }]
    } else {
        Seq::empty()
    }) + (if p.type_ is Some && p.type_ != Some(ParameterType::Any) {
        seq![AttrS { name: T_TYPE@, value: p.type_.unwrap().spec_text() }]
    } else {
        Seq::empty()
    })
}

/// One `<param>` line.
pub open spec fn spec_param_bytes(p: UiParameterV) -> Seq<u8> {
    spec_indent(4) + spec_empty_tag(T_PARAM@, spec_param_attrs(p))
}

/// The `<param>` lines of a runnable, in order.
pub open spec fn spec_params_bytes(ps: Seq<UiParameterV>) -> Seq<u8>
    decreases ps.len(),
{
    if ps.len() == 0 {
        Seq::empty()
    } else {
        spec_param_bytes(ps[0]) + spec_params_bytes(ps.skip(1))
    }
}

/// One more parameter on the right.
proof fn lemma_params_bytes_push(ps: Seq<UiParameterV>, p: UiParameterV)
    ensures
        spec_params_bytes(ps.push(p)) == spec_params_bytes(ps) + spec_param_bytes(p),
    decreases ps.len(),
{
    if ps.len() == 0 {
        assert(ps.push(p)[0] == p);
        assert(ps.push(p).skip(1) =~= Seq::<UiParameterV>::empty());
        assert(spec_params_bytes(ps.push(p).skip(1)) == Seq::<u8>::empty());
        assert(spec_params_bytes(ps.push(p)) == spec_param_bytes(p) + Seq::<u8>::empty());
        assert(spec_params_bytes(ps.push(p)) =~= spec_params_bytes(ps) + spec_param_bytes(p));
    } else {
        assert(ps.push(p)[0] == ps[0]);
        assert(ps.push(p).skip(1) =~= ps.skip(1).push(p));
        lemma_params_bytes_push(ps.skip(1), p);
        assert(spec_params_bytes(ps.push(p)) == spec_param_bytes(ps[0]) + spec_params_bytes(
            ps.skip(1).push(p),
        ));
        assert(spec_params_bytes(ps) == spec_param_bytes(ps[0]) + spec_params_bytes(ps.skip(1)));
        assert(spec_params_bytes(ps.push(p)) =~= spec_params_bytes(ps) + spec_param_bytes(p));
    }
}

/// The two name-carrying attributes of a runnable tag: `name`, and its
/// duplicate under the legacy key (`funcname` or `fscommand`).
pub open spec fn spec_runnable_attrs(r: UiRunnableV, dup: Seq<u8>) -> Seq<AttrS> {
    seq![AttrS { name: T_NAME@, value: r.name }, AttrS { name: dup, value: r.name }]
}

/// One `<function>` or `<event>` entry: self-closing when it has no
/// parameters, otherwise an open tag, its `<param>` lines, and the end tag.
pub open spec fn spec_runnable_bytes(r: UiRunnableV, item: Seq<u8>, dup: Seq<u8>) -> Seq<u8> {
    if r.parameters.len() == 0 {
        spec_indent(3) + spec_empty_tag(item, spec_runnable_attrs(r, dup))
    } else {
        spec_indent(3) + spec_start_tag(item, spec_runnable_attrs(r, dup)) + spec_params_bytes(
            r.parameters,
        ) + spec_indent(3) + spec_end_tag(item)
    }
}

/// The entries of one section, in order.
pub open spec fn spec_runnables_bytes(rs: Seq<UiRunnableV>, item: Seq<u8>, dup: Seq<u8>) -> Seq<
    u8,
>
    decreases rs.len(),
{
    if rs.len() == 0 {
        Seq::empty()
    } else {
        spec_runnable_bytes(rs[0], item, dup) + spec_runnables_bytes(rs.skip(1), item, dup)
    }
}

/// One more runnable on the right.
proof fn lemma_runnables_bytes_push(
    rs: Seq<UiRunnableV>,
    r: UiRunnableV,
    item: Seq<u8>,
    dup: Seq<u8>,
)
    ensures
        spec_runnables_bytes(rs.push(r), item, dup) == spec_runnables_bytes(rs, item, dup)
            + spec_runnable_bytes(r, item, dup),
    decreases rs.len(),
{
    if rs.len() == 0 {
        assert(rs.push(r)[0] == r);
        assert(rs.push(r).skip(1) =~= Seq::<UiRunnableV>::empty());
        assert(spec_runnables_bytes(rs.push(r).skip(1), item, dup) == Seq::<u8>::empty());
        assert(spec_runnables_bytes(rs.push(r), item, dup) == spec_runnable_bytes(r, item, dup)
            + Seq::<u8>::empty());
        assert(spec_runnables_bytes(rs.push(r), item, dup) =~= spec_runnables_bytes(rs, item, dup)
            + spec_runnable_bytes(r, item, dup));
    } else {
        assert(rs.push(r)[0] == rs[0]);
        assert(rs.push(r).skip(1) =~= rs.skip(1).push(r));
        lemma_runnables_bytes_push(rs.skip(1), r, item, dup);
        assert(spec_runnables_bytes(rs.push(r), item, dup) == spec_runnable_bytes(rs[0], item, dup)
            + spec_runnables_bytes(rs.skip(1).push(r), item, dup));
        assert(spec_runnables_bytes(rs, item, dup) == spec_runnable_bytes(rs[0], item, dup)
            + spec_runnables_bytes(rs.skip(1), item, dup));
        assert(spec_runnables_bytes(rs.push(r), item, dup) =~= spec_runnables_bytes(rs, item, dup)
            + spec_runnable_bytes(r, item, dup));
    }
}

/// One whole section (`<functions>` or `<events>`): omitted entirely when
/// the list is empty.
pub open spec fn spec_section_bytes(
    rs: Seq<UiRunnableV>,
    sec: Seq<u8>,
    item: Seq<u8>,
    dup: Seq<u8>,
) -> Seq<u8> {
    if rs.len() == 0 {
        Seq::empty()
    } else {
        spec_indent(2) + spec_start_tag(sec, Seq::empty()) + spec_runnables_bytes(rs, item, dup)
            + spec_indent(2) + spec_end_tag(sec)
    }
}

/// The document head: the `UIElements`, `UIElement`, `GFx`, `Constraints`
/// and `Align` tags, and the two closers that follow `Align`.
pub open spec fn spec_header_bytes(c: XmlConfigV) -> Seq<u8> {
    spec_start_tag(T_UIELEMENTS@, seq![AttrS { name: T_NAME@, value: c.ui_elements_name }])
        + spec_indent(1) + spec_start_tag(
        T_UIELEMENT@,
        seq![AttrS { name: T_NAME@, value: c.ui_element_name }],
    ) + spec_indent(2) + spec_start_tag(
        T_GFX@,
        seq![
            AttrS { name: T_FILE@, value: c.gfx_file_name },
            AttrS { name: T_LAYER@, value: spec_dec(c.gfx_layer as nat) },
        ],
    ) + spec_indent(3) + spec_start_tag(T_CONSTRAINTS@, Seq::empty()) + spec_indent(4)
        + spec_empty_tag(T_ALIGN@, spec_align_attrs(c)) + spec_indent(3) + spec_end_tag(
        T_CONSTRAINTS@,
    ) + spec_indent(2) + spec_end_tag(T_GFX@)
}

/// The document tail: the closers of `UIElement` and `UIElements`.
pub open spec fn spec_footer_bytes() -> Seq<u8> {
    spec_indent(1) + spec_end_tag(T_UIELEMENT@) + spec_indent(0) + spec_end_tag(T_UIELEMENTS@)
}

/// The whole document the writer emits for `c`.
pub open spec fn spec_write(c: XmlConfigV) -> Seq<u8> {
    spec_header_bytes(c) + spec_section_bytes(c.functions, T_FUNCTIONS@, T_FUNCTION@, T_FUNCNAME@)
        + spec_section_bytes(c.events, T_EVENTS@, T_EVENT@, T_FSCOMMAND@) + spec_footer_bytes()
}

/// Appends the document head.
fn write_header(out: &mut Vec<u8>, config: &XmlConfig)
    ensures
        final(out)@ == old(out)@ + spec_header_bytes(config@),
{
    let ghost c = config@;

    let mut attrs: Vec<Attr> = Vec::new();
    attrs.push(attr_of(&T_NAME, config.ui_elements_name.as_slice()));
    proof {
        assert(attrs@.map_values(|a: Attr| a@) =~= seq![
            AttrS { name: T_NAME@, value: c.ui_elements_name },
        ]);
    }
    push_tag(out, &T_UIELEMENTS, &attrs, false);
    push_indent(out, 1);

    let mut attrs: Vec<Attr> = Vec::new();
    attrs.push(attr_of(&T_NAME, config.ui_element_name.as_slice()));
    proof {
        assert(attrs@.map_values(|a: Attr| a@) =~= seq![
            AttrS { name: T_NAME@, value: c.ui_element_name },
        ]);
    }
    push_tag(out, &T_UIELEMENT, &attrs, false);
    push_indent(out, 2);

    let mut layer_text: Vec<u8> = Vec::new();
    push_dec(&mut layer_text, config.gfx_layer);
    let mut attrs: Vec<Attr> = Vec::new();
    attrs.push(attr_of(&T_FILE, config.gfx_file_name.as_slice()));
    attrs.push(Attr { name: copy_bytes(&T_LAYER), value: layer_text });
    proof {
        assert(attrs@.map_values(|a: Attr| a@) =~= seq![
            AttrS { name: T_FILE@, value: c.gfx_file_name },
            AttrS { name: T_LAYER@, value: spec_dec(c.gfx_layer as nat) },
        ]);
    }
    push_tag(out, &T_GFX, &attrs, false);
    push_indent(out, 3);

    let no_attrs: Vec<Attr> = Vec::new();
    proof {
        assert(no_attrs@.map_values(|a: Attr| a@) =~= Seq::<AttrS>::empty());
    }
    push_tag(out, &T_CONSTRAINTS, &no_attrs, false);
    push_indent(out, 4);

    let mut attrs: Vec<Attr> = Vec::new();
    if config.fullscreen {
        attrs.push(attr_of(&T_MODE, &T_FULLSCREEN));
        attrs.push(attr_of(&T_SCALE, &T_ONE));
        attrs.push(attr_of(&T_MAXIMIZE, &T_ONE));
        proof {
            assert(attrs@.map_values(|a: Attr| a@) =~= spec_align_attrs(c));
        }
    } else {
        attrs.push(attr_of(&T_MODE, &T_DYNAMIC));
        let mut valign_text: Vec<u8> = Vec::new();
        config.valign.push_text(&mut valign_text);
        attrs.push(Attr { name: copy_bytes(&T_VALIGN), value: valign_text });
        let mut halign_text: Vec<u8> = Vec::new();
        config.halign.push_text(&mut halign_text);
        attrs.push(Attr { name: copy_bytes(&T_HALIGN), value: halign_text });
        proof {
            assert(attrs@.map_values(|a: Attr| a@) =~= spec_align_attrs(c));
        }
    }
    push_tag(out, &T_ALIGN, &attrs, true);
    push_indent(out, 3);

    push_end_tag(out, &T_CONSTRAINTS);
    push_indent(out, 2);
    push_end_tag(out, &T_GFX);

    proof {
        assert(out@ =~= old(out)@ + spec_header_bytes(c));
    }
}

/// Appends one `<param>` line.
fn write_param(out: &mut Vec<u8>, p: &UiParameter)
    ensures
        final(out)@ == old(out)@ + spec_param_bytes(p@),
{
    push_indent(out, 4);
    let mut attrs: Vec<Attr> = Vec::new();
    attrs.push(attr_of(&T_NAME, p.name.as_slice()));
    if p.description.len() > 0 {
        attrs.push(attr_of(&T_DESC, p.description.as_slice()));
    }
    let write_type = match p.type_ {
        Some(t) => !matches!(t, ParameterType::Any),
        None => false,
    };
    if write_type {
        let mut type_text: Vec<u8> = Vec::new();
        match p.type_ {
            Some(t) => t.push_text(&mut type_text),
            None => {},
        }
        attrs.push(Attr { name: copy_bytes(&T_TYPE), value: type_text });
    }
    proof {
        assert(attrs@.map_values(|a: Attr| a@) =~= spec_param_attrs(p@));
    }
    push_tag(out, &T_PARAM, &attrs, true);
    proof {
        assert(out@ =~= old(out)@ + spec_param_bytes(p@));
    }
}

/// Appends one `<function>` or `<event>` entry.
fn write_runnable(out: &mut Vec<u8>, r: &UiRunnable, item: &[u8], dup: &[u8])
    ensures
        final(out)@ == old(out)@ + spec_runnable_bytes(r@, item@, dup@),
{
    push_indent(out, 3);
    let mut attrs: Vec<Attr> = Vec::new();
    attrs.push(attr_of(&T_NAME, r.name.as_slice()));
    attrs.push(attr_of(dup, r.name.as_slice()));
    proof {
        assert(attrs@.map_values(|a: Attr| a@) =~= spec_runnable_attrs(r@, dup@));
    }
    if r.parameters.len() == 0 {
        push_tag(out, item, &attrs, true);
        proof {
            assert(r@.parameters.len() == 0);
            assert(out@ =~= old(out)@ + spec_runnable_bytes(r@, item@, dup@));
        }
        return ;
    }
    push_tag(out, item, &attrs, false);
    let ghost head = old(out)@ + spec_indent(3) + spec_start_tag(
        item@,
        spec_runnable_attrs(r@, dup@),
    );
    proof {
        assert(out@ =~= head + spec_params_bytes(r@.parameters.subrange(0, 0)));
    }
    let mut i: usize = 0;
    while i < r.parameters.len()
        invariant
            i <= r.parameters@.len(),
            head == old(out)@ + spec_indent(3) + spec_start_tag(
                item@,
                spec_runnable_attrs(r@, dup@),
            ),
            out@ == head + spec_params_bytes(r@.parameters.subrange(0, i as int)),
        decreases r.parameters@.len() - i,
    {
        let ghost pre = r@.parameters.subrange(0, i as int);
        write_param(out, &r.parameters[i]);
        proof {
            assert(r@.parameters[i as int] == r.parameters@[i as int]@);
            lemma_params_bytes_push(pre, r@.parameters[i as int]);
            assert(r@.parameters.subrange(0, i + 1) =~= pre.push(r@.parameters[i as int]));
            assert(out@ =~= head + spec_params_bytes(r@.parameters.subrange(0, i + 1)));
        }
        i += 1;
    }
    proof {
        assert(r@.parameters.subrange(0, r@.parameters.len() as int) =~= r@.parameters);
    }
    push_indent(out, 3);
    push_end_tag(out, item);
    proof {
        assert(r@.parameters.len() > 0);
        assert(out@ =~= old(out)@ + spec_runnable_bytes(r@, item@, dup@));
    }
}

/// Appends one whole section, or nothing when it is empty.
fn write_section(out: &mut Vec<u8>, rs: &Vec<UiRunnable>, sec: &[u8], item: &[u8], dup: &[u8])
    ensures
        final(out)@ == old(out)@ + spec_section_bytes(
            rs@.map_values(|r: UiRunnable| r@),
            sec@,
            item@,
            dup@,
        ),
{
    let ghost rsv = rs@.map_values(|r: UiRunnable| r@);
    if rs.len() == 0 {
        proof {
            assert(out@ =~= old(out)@ + spec_section_bytes(rsv, sec@, item@, dup@));
        }
        return ;
    }
    push_indent(out, 2);
    let no_attrs: Vec<Attr> = Vec::new();
    proof {
        assert(no_attrs@.map_values(|a: Attr| a@) =~= Seq::<AttrS>::empty());
    }
    push_tag(out, sec, &no_attrs, false);
    let ghost head = old(out)@ + spec_indent(2) + spec_start_tag(sec@, Seq::empty());
    proof {
        assert(out@ =~= head + spec_runnables_bytes(rsv.subrange(0, 0), item@, dup@));
    }
    let mut i: usize = 0;
    while i < rs.len()
        invariant
            i <= rs@.len(),
            rsv == rs@.map_values(|r: UiRunnable| r@),
            head == old(out)@ + spec_indent(2) + spec_start_tag(sec@, Seq::empty()),
            out@ == head + spec_runnables_bytes(rsv.subrange(0, i as int), item@, dup@),
        decreases rs@.len() - i,
    {
        let ghost pre = rsv.subrange(0, i as int);
        write_runnable(out, &rs[i], item, dup);
        proof {
            assert(rsv[i as int] == rs@[i as int]@);
            lemma_runnables_bytes_push(pre, rsv[i as int], item@, dup@);
            assert(rsv.subrange(0, i + 1) =~= pre.push(rsv[i as int]));
            assert(out@ =~= head + spec_runnables_bytes(rsv.subrange(0, i + 1), item@, dup@));
        }
        i += 1;
    }
    proof {
        assert(rsv.subrange(0, rsv.len() as int) =~= rsv);
    }
    push_indent(out, 2);
    push_end_tag(out, sec);
    proof {
        assert(rsv.len() > 0);
        assert(out@ =~= old(out)@ + spec_section_bytes(rsv, sec@, item@, dup@));
    }
}

impl crate::model::XmlManager {
    /// Serializes `config` into the descriptor document, exactly the bytes
    /// `spec_write` states.
    pub fn write_config(config: &XmlConfig) -> (r: Vec<u8>)
        ensures
            r@ == spec_write(config@),
    {
        let mut out: Vec<u8> = Vec::new();
        write_header(&mut out, config);
        write_section(&mut out, &config.functions, &T_FUNCTIONS, &T_FUNCTION, &T_FUNCNAME);
        write_section(&mut out, &config.events, &T_EVENTS, &T_EVENT, &T_FSCOMMAND);
        push_indent(&mut out, 1);
        push_end_tag(&mut out, &T_UIELEMENT);
        push_indent(&mut out, 0);
        push_end_tag(&mut out, &T_UIELEMENTS);
        proof {
            assert(out@ =~= spec_write(config@));
        }
        out
    }
}

} // verus!
