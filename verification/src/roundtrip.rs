//! The round trip: reading a written configuration gives it back. The proof
//! walks the written document twice — once to show the scanner returns
//! exactly the written tags, once to show the fold rebuilds the
//! configuration from them.

use vstd::prelude::*;

use crate::bytes_util::spec_to_lower;
use crate::model::{HAlign, ParameterType, VAlign, XmlConfigV};
use crate::reader::{spec_add_param, spec_fold, spec_read, spec_step, ReadStateV};
use crate::scan::spec_attr_of;
use crate::scan::{is_name_byte, is_ws, spec_scan, AttrS, TagS};
use crate::scan_of_write::{
    lemma_indent_ws, lemma_region_split, lemma_scan_end, lemma_scan_ws_end_tag,
    lemma_scan_ws_tag, region_is, wf_attrs, wf_name,
};
use crate::tokens::{
    T_ALIGN, T_CONSTRAINTS, T_DESC, T_DYNAMIC, T_EVENT, T_EVENTS, T_FILE, T_FSCOMMAND,
    T_FULLSCREEN, T_FUNCNAME, T_FUNCTION, T_FUNCTIONS, T_GFX, T_HALIGN, T_LAYER, T_MAXIMIZE,
    T_MODE, T_NAME, T_PARAM, T_SCALE, T_TYPE, T_UIELEMENT, T_UIELEMENTS, T_VALIGN,
};
use crate::model::{UiParameterV, UiRunnableV};
use crate::tokens::{
    T_BOOL, T_BOTTOM, T_CENTER, T_FLOAT, T_INT, T_LEFT, T_RIGHT, T_STRING, T_TOP,
};
use crate::numbers::spec_dec;
use crate::writer::{
    spec_align_attrs, spec_empty_tag, spec_end_tag, spec_footer_bytes, spec_header_bytes,
    spec_indent, spec_param_attrs, spec_param_bytes, spec_params_bytes, spec_runnable_attrs,
    spec_runnable_bytes, spec_runnables_bytes, spec_section_bytes, spec_start_tag, spec_write,
};

verus! {

/// The tag the writer emits for one parameter.
pub open spec fn param_tag(p: UiParameterV) -> TagS {
    TagS { name: T_PARAM@, attrs: spec_param_attrs(p) }
}

/// The tags the writer emits for a parameter list, in order.
pub open spec fn params_tags(ps: Seq<UiParameterV>) -> Seq<TagS>
    decreases ps.len(),
{
    if ps.len() == 0 {
        Seq::empty()
    } else {
        seq![param_tag(ps[0])] + params_tags(ps.skip(1))
    }
}

/// The tags the writer emits for one runnable: its own tag, then its
/// parameters.
pub open spec fn runnable_tags(r: UiRunnableV, item: Seq<u8>, dup: Seq<u8>) -> Seq<TagS> {
    seq![TagS { name: item, attrs: spec_runnable_attrs(r, dup) }] + params_tags(r.parameters)
}

/// The tags the writer emits for a runnable list, in order.
pub open spec fn runnables_tags(rs: Seq<UiRunnableV>, item: Seq<u8>, dup: Seq<u8>) -> Seq<TagS>
    decreases rs.len(),
{
    if rs.len() == 0 {
        Seq::empty()
    } else {
        runnable_tags(rs[0], item, dup) + runnables_tags(rs.skip(1), item, dup)
    }
}

/// The tags the writer emits for one section: nothing when it is empty.
pub open spec fn section_tags(
    rs: Seq<UiRunnableV>,
    sec: Seq<u8>,
    item: Seq<u8>,
    dup: Seq<u8>,
) -> Seq<TagS> {
    if rs.len() == 0 {
        Seq::empty()
    } else {
        seq![TagS { name: sec, attrs: Seq::empty() }] + runnables_tags(rs, item, dup)
    }
}

/// The tags the writer's document head carries.
pub open spec fn header_tags(c: XmlConfigV) -> Seq<TagS> {
    seq![
        TagS {
            name: T_UIELEMENTS@,
            attrs: seq![AttrS { name: T_NAME@, value: c.ui_elements_name }],
        },
        TagS {
            name: T_UIELEMENT@,
            attrs: seq![AttrS { name: T_NAME@, value: c.ui_element_name }],
        },
        TagS {
            name: T_GFX@,
            attrs: seq![
                AttrS { name: T_FILE@, value: c.gfx_file_name },
                AttrS { name: T_LAYER@, value: spec_dec(c.gfx_layer as nat) },
            ],
        },
        TagS { name: T_CONSTRAINTS@, attrs: Seq::empty() },
        TagS { name: T_ALIGN@, attrs: spec_align_attrs(c) },
    ]
}

/// Every tag of the whole written document, in order.
pub open spec fn written_tags(c: XmlConfigV) -> Seq<TagS> {
    header_tags(c) + section_tags(c.functions, T_FUNCTIONS@, T_FUNCTION@, T_FUNCNAME@)
        + section_tags(c.events, T_EVENTS@, T_EVENT@, T_FSCOMMAND@)
}

/// Every tag and attribute name the writer uses is a well-formed name.
proof fn lemma_token_names_wf()
    ensures
        wf_name(T_UIELEMENTS@),
        wf_name(T_UIELEMENT@),
        wf_name(T_GFX@),
        wf_name(T_CONSTRAINTS@),
        wf_name(T_ALIGN@),
        wf_name(T_FUNCTIONS@),
        wf_name(T_FUNCTION@),
        wf_name(T_EVENTS@),
        wf_name(T_EVENT@),
        wf_name(T_PARAM@),
        wf_name(T_NAME@),
        wf_name(T_FUNCNAME@),
        wf_name(T_FSCOMMAND@),
        wf_name(T_FILE@),
        wf_name(T_LAYER@),
        wf_name(T_MODE@),
        wf_name(T_VALIGN@),
        wf_name(T_HALIGN@),
        wf_name(T_SCALE@),
        wf_name(T_MAXIMIZE@),
        wf_name(T_DESC@),
        wf_name(T_TYPE@),
{
    assert forall|i: int|
        0 <= i < T_UIELEMENTS@.len() implies is_name_byte(#[trigger] T_UIELEMENTS@[i]) by {}
    assert forall|i: int|
        0 <= i < T_UIELEMENT@.len() implies is_name_byte(#[trigger] T_UIELEMENT@[i]) by {}
    assert forall|i: int| 0 <= i < T_GFX@.len() implies is_name_byte(#[trigger] T_GFX@[i]) by {}
    assert forall|i: int|
        0 <= i < T_CONSTRAINTS@.len() implies is_name_byte(#[trigger] T_CONSTRAINTS@[i]) by {}
    assert forall|i: int|
        0 <= i < T_ALIGN@.len() implies is_name_byte(#[trigger] T_ALIGN@[i]) by {}
    assert forall|i: int|
        0 <= i < T_FUNCTIONS@.len() implies is_name_byte(#[trigger] T_FUNCTIONS@[i]) by {}
    assert forall|i: int|
        0 <= i < T_FUNCTION@.len() implies is_name_byte(#[trigger] T_FUNCTION@[i]) by {}
    assert forall|i: int|
        0 <= i < T_EVENTS@.len() implies is_name_byte(#[trigger] T_EVENTS@[i]) by {}
    assert forall|i: int|
        0 <= i < T_EVENT@.len() implies is_name_byte(#[trigger] T_EVENT@[i]) by {}
    assert forall|i: int|
        0 <= i < T_PARAM@.len() implies is_name_byte(#[trigger] T_PARAM@[i]) by {}
    assert forall|i: int| 0 <= i < T_NAME@.len() implies is_name_byte(#[trigger] T_NAME@[i]) by {}
    assert forall|i: int|
        0 <= i < T_FUNCNAME@.len() implies is_name_byte(#[trigger] T_FUNCNAME@[i]) by {}
    assert forall|i: int|
        0 <= i < T_FSCOMMAND@.len() implies is_name_byte(#[trigger] T_FSCOMMAND@[i]) by {}
    assert forall|i: int| 0 <= i < T_FILE@.len() implies is_name_byte(#[trigger] T_FILE@[i]) by {}
    assert forall|i: int|
        0 <= i < T_LAYER@.len() implies is_name_byte(#[trigger] T_LAYER@[i]) by {}
    assert forall|i: int| 0 <= i < T_MODE@.len() implies is_name_byte(#[trigger] T_MODE@[i]) by {}
    assert forall|i: int|
        0 <= i < T_VALIGN@.len() implies is_name_byte(#[trigger] T_VALIGN@[i]) by {}
    assert forall|i: int|
        0 <= i < T_HALIGN@.len() implies is_name_byte(#[trigger] T_HALIGN@[i]) by {}
    assert forall|i: int|
        0 <= i < T_SCALE@.len() implies is_name_byte(#[trigger] T_SCALE@[i]) by {}
    assert forall|i: int|
        0 <= i < T_MAXIMIZE@.len() implies is_name_byte(#[trigger] T_MAXIMIZE@[i]) by {}
    assert forall|i: int| 0 <= i < T_DESC@.len() implies is_name_byte(#[trigger] T_DESC@[i]) by {}
    assert forall|i: int| 0 <= i < T_TYPE@.len() implies is_name_byte(#[trigger] T_TYPE@[i]) by {}
}


/// The one `name` attribute of the two outer tags is well formed.
proof fn lemma_name_attr_wf(v: Seq<u8>)
    ensures
        wf_attrs(seq![AttrS { name: T_NAME@, value: v }]),
{
    lemma_token_names_wf();
    let attrs = seq![AttrS { name: T_NAME@, value: v }];
    assert forall|i: int| 0 <= i < attrs.len() implies wf_name((#[trigger] attrs[i]).name) by {
        assert(attrs[0].name == T_NAME@);
    }
}

/// The attributes the writer gives a `<param>` tag are well formed.
proof fn lemma_param_attrs_wf(p: UiParameterV)
    ensures
        wf_attrs(spec_param_attrs(p)),
{
    lemma_token_names_wf();
    let attrs = spec_param_attrs(p);
    let a = seq![AttrS { name: T_NAME@, value: p.name }];
    let b: Seq<AttrS> = if p.description.len() > 0 {
        seq![AttrS { name: T_DESC@, value: p.description }]
    } else {
        Seq::empty()
    };
    let c: Seq<AttrS> = if p.type_ is Some && p.type_ != Some(ParameterType::Any) {
        seq![AttrS { name: T_TYPE@, value: p.type_.unwrap().spec_text() }]
    } else {
        Seq::empty()
    };
    assert(attrs == a + b + c);
    assert forall|i: int| 0 <= i < attrs.len() implies wf_name((#[trigger] attrs[i]).name) by {
        if i == 0 {
            assert(attrs[0] == a[0]);
        } else if i < 1 + b.len() {
            assert(attrs[i] == b[i - 1]);
            assert(b[i - 1].name == T_DESC@);
        } else {
            assert(attrs[i] == c[i - 1 - b.len()]);
            assert(c[i - 1 - b.len()].name == T_TYPE@);
        }
    }
}

/// The attributes the writer gives a runnable tag are well formed.
proof fn lemma_runnable_attrs_wf(r: UiRunnableV, dup: Seq<u8>)
    requires
        wf_name(dup),
    ensures
        wf_attrs(spec_runnable_attrs(r, dup)),
{
    lemma_token_names_wf();
    let attrs = spec_runnable_attrs(r, dup);
    assert forall|i: int| 0 <= i < attrs.len() implies wf_name((#[trigger] attrs[i]).name) by {
        if i == 0 {
            assert(attrs[0].name == T_NAME@);
        } else {
            assert(attrs[1].name == dup);
        }
    }
}

/// The attributes the writer gives the `Align` tag are well formed.
proof fn lemma_align_attrs_wf(c: XmlConfigV)
    ensures
        wf_attrs(spec_align_attrs(c)),
{
    lemma_token_names_wf();
    let attrs = spec_align_attrs(c);
    assert forall|i: int| 0 <= i < attrs.len() implies wf_name((#[trigger] attrs[i]).name) by {
        if i == 0 {
            assert(attrs[0].name == T_MODE@);
        } else if i == 1 {
            if c.fullscreen {
                assert(attrs[1].name == T_SCALE@);
            } else {
                assert(attrs[1].name == T_VALIGN@);
            }
        } else {
            if c.fullscreen {
                assert(attrs[2].name == T_MAXIMIZE@);
            } else {
                assert(attrs[2].name == T_HALIGN@);
            }
        }
    }
}

/// Scanning the written parameter lines puts their tags in front of the
/// rest of the scan.
proof fn lemma_scan_params(s: Seq<u8>, p: int, ps: Seq<UiParameterV>)
    requires
        region_is(s, p, spec_params_bytes(ps)),
    ensures
        spec_scan(s, p) == (match spec_scan(s, p + spec_params_bytes(ps).len()) {
            Ok(r) => Ok::<Seq<TagS>, ()>(params_tags(ps) + r),
            Err(()) => Err::<Seq<TagS>, ()>(()),
        }),
    decreases ps.len(),
{
    lemma_token_names_wf();
    if ps.len() == 0 {
        match spec_scan(s, p) {
            Ok(r) => {
                assert(params_tags(ps) + r =~= r);
            },
            Err(()) => {},
        }
    } else {
        let p0 = ps[0];
        let rest = ps.skip(1);
        assert(spec_params_bytes(ps) == spec_param_bytes(p0) + spec_params_bytes(rest));
        lemma_region_split(s, p, spec_param_bytes(p0), spec_params_bytes(rest));
        let mid = p + spec_param_bytes(p0).len();
        let end = p + spec_params_bytes(ps).len();
        assert(end == mid + spec_params_bytes(rest).len());
        assert(spec_param_bytes(p0) == spec_indent(4) + spec_empty_tag(
            T_PARAM@,
            spec_param_attrs(p0),
        ));
        lemma_indent_ws(4);
        lemma_param_attrs_wf(p0);
        lemma_scan_ws_tag(s, p, spec_indent(4), T_PARAM@, spec_param_attrs(p0), true);
        lemma_scan_params(s, mid, rest);
        match spec_scan(s, end) {
            Ok(r) => {
                assert(spec_scan(s, mid) == Ok::<Seq<TagS>, ()>(params_tags(rest) + r));
                assert(spec_scan(s, p) == Ok::<Seq<TagS>, ()>(
                    seq![param_tag(p0)] + (params_tags(rest) + r),
                ));
                assert(seq![param_tag(p0)] + (params_tags(rest) + r) =~= params_tags(ps) + r);
            },
            Err(()) => {
                assert(spec_scan(s, mid) is Err);
                assert(spec_scan(s, p) is Err);
            },
        }
    }
}

/// Scanning the written entries of a section puts their tags in front of
/// the rest of the scan.
#[verifier::rlimit(100)]
proof fn lemma_scan_runnables(s: Seq<u8>, p: int, rs: Seq<UiRunnableV>, item: Seq<u8>, dup: Seq<u8>)
    requires
        wf_name(item),
        wf_name(dup),
        item[0] != 60,
        region_is(s, p, spec_runnables_bytes(rs, item, dup)),
    ensures
        spec_scan(s, p) == (match spec_scan(s, p + spec_runnables_bytes(rs, item, dup).len()) {
            Ok(r) => Ok::<Seq<TagS>, ()>(runnables_tags(rs, item, dup) + r),
            Err(()) => Err::<Seq<TagS>, ()>(()),
        }),
    decreases rs.len(),
{
    lemma_token_names_wf();
    if rs.len() == 0 {
        match spec_scan(s, p) {
            Ok(r) => {
                assert(runnables_tags(rs, item, dup) + r =~= r);
            },
            Err(()) => {},
        }
    } else {
        let r0 = rs[0];
        let rest = rs.skip(1);
        let rb = spec_runnable_bytes(r0, item, dup);
        assert(spec_runnables_bytes(rs, item, dup) == rb + spec_runnables_bytes(rest, item, dup));
        lemma_region_split(s, p, rb, spec_runnables_bytes(rest, item, dup));
        let mid = p + rb.len();
        let end = p + spec_runnables_bytes(rs, item, dup).len();
        assert(end == mid + spec_runnables_bytes(rest, item, dup).len());
        lemma_runnable_attrs_wf(r0, dup);
        lemma_indent_ws(3);
        let rattrs = spec_runnable_attrs(r0, dup);
        let rtag = TagS { name: item, attrs: rattrs };
        if r0.parameters.len() == 0 {
            assert(rb == spec_indent(3) + spec_empty_tag(item, rattrs));
            lemma_scan_ws_tag(s, p, spec_indent(3), item, rattrs, true);
            assert(params_tags(r0.parameters) =~= Seq::<TagS>::empty());
            lemma_scan_runnables(s, mid, rest, item, dup);
            match spec_scan(s, end) {
                Ok(r) => {
                    assert(spec_scan(s, p) == Ok::<Seq<TagS>, ()>(
                        seq![rtag] + (runnables_tags(rest, item, dup) + r),
                    ));
                    assert(seq![rtag] + (runnables_tags(rest, item, dup) + r) =~= runnables_tags(
                        rs,
                        item,
                        dup,
                    ) + r);
                },
                Err(()) => {},
            }
        } else {
            let open_part = spec_indent(3) + spec_start_tag(item, rattrs);
            let body = spec_params_bytes(r0.parameters);
            let close_part = spec_indent(3) + spec_end_tag(item);
            assert(rb =~= open_part + (body + close_part));
            lemma_region_split(s, p, open_part, body + close_part);
            let q1 = p + open_part.len();
            lemma_region_split(s, q1, body, close_part);
            let q2 = q1 + body.len();
            lemma_scan_ws_tag(s, p, spec_indent(3), item, rattrs, false);
            lemma_scan_params(s, q1, r0.parameters);
            lemma_scan_ws_end_tag(s, q2, spec_indent(3), item);
            assert(q2 + close_part.len() == mid);
            lemma_scan_runnables(s, mid, rest, item, dup);
            match spec_scan(s, end) {
                Ok(r) => {
                    assert(spec_scan(s, mid) == Ok::<Seq<TagS>, ()>(
                        runnables_tags(rest, item, dup) + r,
                    ));
                    assert(spec_scan(s, q2) == spec_scan(s, mid));
                    assert(spec_scan(s, q1) == Ok::<Seq<TagS>, ()>(
                        params_tags(r0.parameters) + (runnables_tags(rest, item, dup) + r),
                    ));
                    assert(spec_scan(s, p) == Ok::<Seq<TagS>, ()>(
                        seq![rtag] + (params_tags(r0.parameters) + (runnables_tags(
                            rest,
                            item,
                            dup,
                        ) + r)),
                    ));
                    assert(seq![rtag] + (params_tags(r0.parameters) + (runnables_tags(
                        rest,
                        item,
                        dup,
                    ) + r)) =~= runnables_tags(rs, item, dup) + r);
                },
                Err(()) => {},
            }
        }
    }
}

/// Scanning a written section puts its tags in front of the rest of the
/// scan; an empty section contributes nothing.
proof fn lemma_scan_section(
    s: Seq<u8>,
    p: int,
    rs: Seq<UiRunnableV>,
    sec: Seq<u8>,
    item: Seq<u8>,
    dup: Seq<u8>,
)
    requires
        wf_name(sec),
        wf_name(item),
        wf_name(dup),
        item[0] != 60,
        region_is(s, p, spec_section_bytes(rs, sec, item, dup)),
    ensures
        spec_scan(s, p) == (match spec_scan(s, p + spec_section_bytes(rs, sec, item, dup).len()) {
            Ok(r) => Ok::<Seq<TagS>, ()>(section_tags(rs, sec, item, dup) + r),
            Err(()) => Err::<Seq<TagS>, ()>(()),
        }),
{
    if rs.len() == 0 {
        match spec_scan(s, p) {
            Ok(r) => {
                assert(section_tags(rs, sec, item, dup) + r =~= r);
            },
            Err(()) => {},
        }
    } else {
        let sb = spec_section_bytes(rs, sec, item, dup);
        let open_part = spec_indent(2) + spec_start_tag(sec, Seq::empty());
        let body = spec_runnables_bytes(rs, item, dup);
        let close_part = spec_indent(2) + spec_end_tag(sec);
        assert(sb =~= open_part + (body + close_part));
        lemma_region_split(s, p, open_part, body + close_part);
        let q1 = p + open_part.len();
        lemma_region_split(s, q1, body, close_part);
        let q2 = q1 + body.len();
        let end = p + sb.len();
        assert(end == q2 + close_part.len());
        lemma_indent_ws(2);
        assert(wf_attrs(Seq::<AttrS>::empty()));
        lemma_scan_ws_tag(s, p, spec_indent(2), sec, Seq::empty(), false);
        lemma_scan_runnables(s, q1, rs, item, dup);
        lemma_scan_ws_end_tag(s, q2, spec_indent(2), sec);
        let stag = TagS { name: sec, attrs: Seq::empty() };
        match spec_scan(s, end) {
            Ok(r) => {
                assert(spec_scan(s, q2) == Ok::<Seq<TagS>, ()>(r));
                assert(spec_scan(s, q1) == Ok::<Seq<TagS>, ()>(
                    runnables_tags(rs, item, dup) + r,
                ));
                assert(spec_scan(s, p) == Ok::<Seq<TagS>, ()>(
                    seq![stag] + (runnables_tags(rs, item, dup) + r),
                ));
                assert(seq![stag] + (runnables_tags(rs, item, dup) + r) =~= section_tags(
                    rs,
                    sec,
                    item,
                    dup,
                ) + r);
            },
            Err(()) => {},
        }
    }
}

/// Scanning the written document head puts its five tags in front of the
/// rest of the scan.
#[verifier::rlimit(100)]
proof fn lemma_scan_header(s: Seq<u8>, p: int, c: XmlConfigV)
    requires
        region_is(s, p, spec_header_bytes(c)),
    ensures
        spec_scan(s, p) == (match spec_scan(s, p + spec_header_bytes(c).len()) {
            Ok(r) => Ok::<Seq<TagS>, ()>(header_tags(c) + r),
            Err(()) => Err::<Seq<TagS>, ()>(()),
        }),
{
    lemma_token_names_wf();
    let hb = spec_header_bytes(c);
    let a1: Seq<AttrS> = seq![AttrS { name: T_NAME@, value: c.ui_elements_name }];
    let a2: Seq<AttrS> = seq![AttrS { name: T_NAME@, value: c.ui_element_name }];
    let a3: Seq<AttrS> = seq![
        AttrS { name: T_FILE@, value: c.gfx_file_name },
        AttrS { name: T_LAYER@, value: spec_dec(c.gfx_layer as nat) },
    ];
    let x1 = Seq::<u8>::empty() + spec_start_tag(T_UIELEMENTS@, a1);
    let x2 = spec_indent(1) + spec_start_tag(T_UIELEMENT@, a2);
    let x3 = spec_indent(2) + spec_start_tag(T_GFX@, a3);
    let x4 = spec_indent(3) + spec_start_tag(T_CONSTRAINTS@, Seq::empty());
    let x5 = spec_indent(4) + spec_empty_tag(T_ALIGN@, spec_align_attrs(c));
    let x6 = spec_indent(3) + spec_end_tag(T_CONSTRAINTS@);
    let x7 = spec_indent(2) + spec_end_tag(T_GFX@);
    assert(hb =~= x1 + (x2 + (x3 + (x4 + (x5 + (x6 + x7))))));
    lemma_region_split(s, p, x1, x2 + (x3 + (x4 + (x5 + (x6 + x7)))));
    let p2 = p + x1.len();
    lemma_region_split(s, p2, x2, x3 + (x4 + (x5 + (x6 + x7))));
    let p3 = p2 + x2.len();
    lemma_region_split(s, p3, x3, x4 + (x5 + (x6 + x7)));
    let p4 = p3 + x3.len();
    lemma_region_split(s, p4, x4, x5 + (x6 + x7));
    let p5 = p4 + x4.len();
    lemma_region_split(s, p5, x5, x6 + x7);
    let p6 = p5 + x5.len();
    lemma_region_split(s, p6, x6, x7);
    let p7 = p6 + x6.len();
    let end = p7 + x7.len();
    assert(end == p + hb.len());

    lemma_name_attr_wf(c.ui_elements_name);
    lemma_name_attr_wf(c.ui_element_name);
    assert forall|i: int| 0 <= i < a3.len() implies wf_name((#[trigger] a3[i]).name) by {
        if i == 0 {
            assert(a3[0].name == T_FILE@);
        } else {
            assert(a3[1].name == T_LAYER@);
        }
    }
    lemma_align_attrs_wf(c);
    assert(wf_attrs(Seq::<AttrS>::empty()));

    lemma_indent_ws(1);
    lemma_indent_ws(2);
    lemma_indent_ws(3);
    lemma_indent_ws(4);
    assert(forall|k: int| 0 <= k < 0 ==> is_ws(#[trigger] Seq::<u8>::empty()[k]));
    lemma_scan_ws_tag(s, p, Seq::empty(), T_UIELEMENTS@, a1, false);
    lemma_scan_ws_tag(s, p2, spec_indent(1), T_UIELEMENT@, a2, false);
    lemma_scan_ws_tag(s, p3, spec_indent(2), T_GFX@, a3, false);
    lemma_scan_ws_tag(s, p4, spec_indent(3), T_CONSTRAINTS@, Seq::empty(), false);
    lemma_scan_ws_tag(s, p5, spec_indent(4), T_ALIGN@, spec_align_attrs(c), true);
    lemma_scan_ws_end_tag(s, p6, spec_indent(3), T_CONSTRAINTS@);
    lemma_scan_ws_end_tag(s, p7, spec_indent(2), T_GFX@);

    let t1 = TagS { name: T_UIELEMENTS@, attrs: a1 };
    let t2 = TagS { name: T_UIELEMENT@, attrs: a2 };
    let t3 = TagS { name: T_GFX@, attrs: a3 };
    let t4 = TagS { name: T_CONSTRAINTS@, attrs: Seq::empty() };
    let t5 = TagS { name: T_ALIGN@, attrs: spec_align_attrs(c) };
    match spec_scan(s, end) {
        Ok(r) => {
            assert(spec_scan(s, p) == Ok::<Seq<TagS>, ()>(
                seq![t1] + (seq![t2] + (seq![t3] + (seq![t4] + (seq![t5] + r)))),
            ));
            assert(seq![t1] + (seq![t2] + (seq![t3] + (seq![t4] + (seq![t5] + r))))
                =~= header_tags(c) + r);
        },
        Err(()) => {},
    }
}

/// Scanning the written document tail, which ends the document, yields no
/// tags.
proof fn lemma_scan_footer(s: Seq<u8>, p: int)
    requires
        region_is(s, p, spec_footer_bytes()),
        p + spec_footer_bytes().len() == s.len(),
    ensures
        spec_scan(s, p) == Ok::<Seq<TagS>, ()>(Seq::empty()),
{
    lemma_token_names_wf();
    let x1 = spec_indent(1) + spec_end_tag(T_UIELEMENT@);
    let x2 = spec_indent(0) + spec_end_tag(T_UIELEMENTS@);
    assert(spec_footer_bytes() =~= x1 + x2);
    lemma_region_split(s, p, x1, x2);
    let p2 = p + x1.len();
    lemma_indent_ws(0);
    lemma_indent_ws(1);
    lemma_scan_ws_end_tag(s, p, spec_indent(1), T_UIELEMENT@);
    lemma_scan_ws_end_tag(s, p2, spec_indent(0), T_UIELEMENTS@);
    lemma_scan_end(s, p2 + x2.len());
}

/// The scanner tokenizes the writer's whole output back into exactly the
/// written tags.
#[verifier::rlimit(100)]
pub proof fn lemma_scan_of_write(c: XmlConfigV)
    ensures
        spec_scan(spec_write(c), 0) == Ok::<Seq<TagS>, ()>(written_tags(c)),
{
    let s = spec_write(c);
    let hb = spec_header_bytes(c);
    let fb = spec_section_bytes(c.functions, T_FUNCTIONS@, T_FUNCTION@, T_FUNCNAME@);
    let eb = spec_section_bytes(c.events, T_EVENTS@, T_EVENT@, T_FSCOMMAND@);
    let tb = spec_footer_bytes();
    assert(s =~= hb + (fb + (eb + tb)));
    assert(s.subrange(0, s.len() as int) =~= s);
    assert(region_is(s, 0, hb + (fb + (eb + tb))));
    lemma_region_split(s, 0, hb, fb + (eb + tb));
    let p2 = hb.len() as int;
    lemma_region_split(s, p2, fb, eb + tb);
    let p3 = p2 + fb.len();
    lemma_region_split(s, p3, eb, tb);
    let p4 = p3 + eb.len();
    assert(p4 + tb.len() == s.len());

    lemma_token_names_wf();
    lemma_scan_header(s, 0, c);
    lemma_scan_section(s, p2, c.functions, T_FUNCTIONS@, T_FUNCTION@, T_FUNCNAME@);
    lemma_scan_section(s, p3, c.events, T_EVENTS@, T_EVENT@, T_FSCOMMAND@);
    lemma_scan_footer(s, p4);

    let ftags = section_tags(c.functions, T_FUNCTIONS@, T_FUNCTION@, T_FUNCNAME@);
    let etags = section_tags(c.events, T_EVENTS@, T_EVENT@, T_FSCOMMAND@);
    assert(spec_scan(s, p4) == Ok::<Seq<TagS>, ()>(Seq::empty()));
    assert(spec_scan(s, p3) == Ok::<Seq<TagS>, ()>(etags + Seq::empty()));
    assert(spec_scan(s, p2) == Ok::<Seq<TagS>, ()>(ftags + (etags + Seq::empty())));
    assert(spec_scan(s, 0) == Ok::<Seq<TagS>, ()>(
        header_tags(c) + (ftags + (etags + Seq::empty())),
    ));
    assert(header_tags(c) + (ftags + (etags + Seq::empty())) =~= written_tags(c));
}


/// Folding a concatenation folds the first part, then the second.
proof fn lemma_fold_append(ts1: Seq<TagS>, ts2: Seq<TagS>, st: ReadStateV)
    ensures
        spec_fold(ts1 + ts2, st) == (match spec_fold(ts1, st) {
            Ok(m) => spec_fold(ts2, m),
            Err(e) => Err(e),
        }),
    decreases ts1.len(),
{
    if ts1.len() == 0 {
        assert(ts1 + ts2 =~= ts2);
        assert(spec_fold(ts1, st) == Ok::<ReadStateV, crate::model::ParseError>(st));
    } else {
        assert((ts1 + ts2)[0] == ts1[0]);
        assert((ts1 + ts2).skip(1) =~= ts1.skip(1) + ts2);
        match spec_step(st, ts1[0]) {
            Err(e) => {},
            Ok(st2) => {
                lemma_fold_append(ts1.skip(1), ts2, st2);
            },
        }
    }
}

/// Lowercasing the canonical alignment and type texts changes nothing, and
/// the texts are pairwise distinct; so reading a written alignment or type
/// gives the value back.
proof fn lemma_valign_round(prior: VAlign, v: VAlign)
    ensures
        VAlign::spec_update(prior, v.spec_text()) == v,
{
    assert(spec_to_lower(T_TOP@) =~= T_TOP@);
    assert(spec_to_lower(T_CENTER@) =~= T_CENTER@);
    assert(spec_to_lower(T_BOTTOM@) =~= T_BOTTOM@);
    assert(T_CENTER@[0] == 99 && T_BOTTOM@[0] == 98);
}

proof fn lemma_halign_round(prior: HAlign, v: HAlign)
    ensures
        HAlign::spec_update(prior, v.spec_text()) == v,
{
    assert(spec_to_lower(T_LEFT@) =~= T_LEFT@);
    assert(spec_to_lower(T_CENTER@) =~= T_CENTER@);
    assert(spec_to_lower(T_RIGHT@) =~= T_RIGHT@);
}

proof fn lemma_ptype_round(t: ParameterType)
    ensures
        ParameterType::spec_of_text(t.spec_text()) == t || t == ParameterType::Any,
{
    assert(spec_to_lower(T_INT@) =~= T_INT@);
    assert(spec_to_lower(T_BOOL@) =~= T_BOOL@);
    assert(spec_to_lower(T_STRING@) =~= T_STRING@);
    assert(spec_to_lower(T_FLOAT@) =~= T_FLOAT@);
}

/// Looking up the attributes of a written `<param>` tag gives back the
/// parameter's own fields.
proof fn lemma_param_attr_lookups(p: UiParameterV)
    ensures
        spec_attr_of(spec_param_attrs(p), T_NAME@) == Some(p.name),
        spec_attr_of(spec_param_attrs(p), T_DESC@) == (if p.description.len() > 0 {
            Some(p.description)
        } else {
            None
        }),
        spec_attr_of(spec_param_attrs(p), T_TYPE@) == (if p.type_ is Some && p.type_ != Some(
            ParameterType::Any,
        ) {
            Some(p.type_.unwrap().spec_text())
        } else {
            None
        }),
{
    let attrs = spec_param_attrs(p);
    let n0 = AttrS { name: T_NAME@, value: p.name };
    let d0 = AttrS { name: T_DESC@, value: p.description };
    let t0 = AttrS {
        name: T_TYPE@,
        value: (match p.type_ {
            Some(t) => t,
            None => ParameterType::Any,
        }).spec_text(),
    };
    assert(T_NAME@[0] == 110 && T_DESC@[0] == 100 && T_TYPE@[0] == 116);
    let has_desc = p.description.len() > 0;
    let has_type = p.type_ is Some && p.type_ != Some(ParameterType::Any);
    if has_desc && has_type {
        assert(attrs =~= seq![n0, d0, t0]);
        assert(attrs[0] == n0);
        assert(attrs.skip(1) =~= seq![d0, t0]);
        assert((seq![d0, t0]).skip(1) =~= seq![t0]);
        assert((seq![t0]).skip(1) =~= Seq::<AttrS>::empty());
        assert(spec_attr_of(attrs, T_NAME@) == Some(p.name));
        assert(spec_attr_of(attrs, T_DESC@) == spec_attr_of(seq![d0, t0], T_DESC@));
        assert(spec_attr_of(seq![d0, t0], T_DESC@) == Some(p.description));
        assert(spec_attr_of(attrs, T_TYPE@) == spec_attr_of(seq![d0, t0], T_TYPE@));
        assert(spec_attr_of(seq![d0, t0], T_TYPE@) == spec_attr_of(seq![t0], T_TYPE@));
        assert(spec_attr_of(seq![t0], T_TYPE@) == Some(t0.value));
    } else if has_desc {
        assert(attrs =~= seq![n0, d0]);
        assert(attrs.skip(1) =~= seq![d0]);
        assert((seq![d0]).skip(1) =~= Seq::<AttrS>::empty());
        assert(spec_attr_of(attrs, T_NAME@) == Some(p.name));
        assert(spec_attr_of(attrs, T_DESC@) == spec_attr_of(seq![d0], T_DESC@));
        assert(spec_attr_of(seq![d0], T_DESC@) == Some(p.description));
        assert(spec_attr_of(attrs, T_TYPE@) == spec_attr_of(seq![d0], T_TYPE@));
        assert(spec_attr_of(seq![d0], T_TYPE@) == spec_attr_of(Seq::<AttrS>::empty(), T_TYPE@));
        assert(spec_attr_of(Seq::<AttrS>::empty(), T_TYPE@) is None);
    } else if has_type {
        assert(attrs =~= seq![n0, t0]);
        assert(attrs.skip(1) =~= seq![t0]);
        assert((seq![t0]).skip(1) =~= Seq::<AttrS>::empty());
        assert(spec_attr_of(attrs, T_NAME@) == Some(p.name));
        assert(spec_attr_of(attrs, T_DESC@) == spec_attr_of(seq![t0], T_DESC@));
        assert(spec_attr_of(seq![t0], T_DESC@) == spec_attr_of(Seq::<AttrS>::empty(), T_DESC@));
        assert(spec_attr_of(Seq::<AttrS>::empty(), T_DESC@) is None);
        assert(spec_attr_of(attrs, T_TYPE@) == spec_attr_of(seq![t0], T_TYPE@));
        assert(spec_attr_of(seq![t0], T_TYPE@) == Some(t0.value));
    } else {
        assert(attrs =~= seq![n0]);
        assert(attrs.skip(1) =~= Seq::<AttrS>::empty());
        assert(spec_attr_of(attrs, T_NAME@) == Some(p.name));
        assert(spec_attr_of(attrs, T_DESC@) == spec_attr_of(Seq::<AttrS>::empty(), T_DESC@));
        assert(spec_attr_of(attrs, T_TYPE@) == spec_attr_of(Seq::<AttrS>::empty(), T_TYPE@));
    }
}

/// One written `<param>` tag folds into appending exactly that parameter to
/// the open runnable.
proof fn lemma_step_param(st: ReadStateV, p: UiParameterV, i: int)
    requires
        p.wf(),
        st.current == Some(i),
        st.in_functions ==> 0 <= i < st.config.functions.len(),
        !st.in_functions ==> 0 <= i < st.config.events.len(),
    ensures
        spec_step(st, param_tag(p)) == Ok::<ReadStateV, crate::model::ParseError>(
            ReadStateV {
                config: XmlConfigV {
                    functions: if st.in_functions {
                        spec_add_param(st.config.functions, i, p)
                    } else {
                        st.config.functions
                    },
                    events: if st.in_functions {
                        st.config.events
                    } else {
                        spec_add_param(st.config.events, i, p)
                    },
                    ..st.config
                },
                ..st
            },
        ),
{
    let t = param_tag(p);
    assert(t.name == T_PARAM@);
    assert(T_PARAM@.len() == 5 && T_UIELEMENTS@.len() == 10 && T_UIELEMENT@.len() == 9
        && T_GFX@.len() == 3 && T_ALIGN@.len() == 5 && T_FUNCTION@.len() == 8 && T_EVENT@.len()
        == 5);
    assert(T_ALIGN@[0] == 65 && T_EVENT@[0] == 101 && T_PARAM@[0] == 112);
    assert(t.name != T_UIELEMENTS@ && t.name != T_UIELEMENT@ && t.name != T_GFX@ && t.name
        != T_ALIGN@ && t.name != T_FUNCTION@ && t.name != T_EVENT@);
    lemma_param_attr_lookups(p);
    let ty = p.type_.unwrap();
    lemma_ptype_round(ty);
    if ty == ParameterType::Any {
        assert(spec_attr_of(t.attrs, T_TYPE@) is None);
    }
    let rebuilt = UiParameterV {
        name: p.name,
        description: match spec_attr_of(t.attrs, T_DESC@) {
            Some(d) => d,
            None => Seq::empty(),
        },
        type_: Some(
            match spec_attr_of(t.attrs, T_TYPE@) {
                Some(tv) => ParameterType::spec_of_text(tv),
                None => ParameterType::Any,
            },
        ),
    };
    if p.description.len() == 0 {
        assert(p.description =~= Seq::<u8>::empty());
    }
    assert(rebuilt.description == p.description);
    assert(rebuilt.type_ == p.type_);
    assert(rebuilt == p);
}


/// `rs` with the whole parameter list `ps` appended to the runnable at `i`.
pub open spec fn append_params(rs: Seq<UiRunnableV>, i: int, ps: Seq<UiParameterV>) -> Seq<
    UiRunnableV,
> {
    rs.update(i, UiRunnableV { name: rs[i].name, parameters: rs[i].parameters + ps })
}

/// Folding the written parameter lines appends exactly those parameters to
/// the open runnable.
proof fn lemma_fold_params(ps: Seq<UiParameterV>, st: ReadStateV, i: int)
    requires
        forall|k: int| 0 <= k < ps.len() ==> (#[trigger] ps[k]).wf(),
        st.current == Some(i),
        st.in_functions ==> 0 <= i < st.config.functions.len(),
        !st.in_functions ==> 0 <= i < st.config.events.len(),
    ensures
        spec_fold(params_tags(ps), st) == Ok::<ReadStateV, crate::model::ParseError>(
            ReadStateV {
                config: XmlConfigV {
                    functions: if st.in_functions {
                        append_params(st.config.functions, i, ps)
                    } else {
                        st.config.functions
                    },
                    events: if st.in_functions {
                        st.config.events
                    } else {
                        append_params(st.config.events, i, ps)
                    },
                    ..st.config
                },
                ..st
            },
        ),
    decreases ps.len(),
{
    let active = if st.in_functions {
        st.config.functions
    } else {
        st.config.events
    };
    if ps.len() == 0 {
        assert(active[i].parameters + ps =~= active[i].parameters);
        assert(active[i] == (UiRunnableV {
            name: active[i].name,
            parameters: active[i].parameters,
        }));
        assert(append_params(active, i, ps) =~= active);
    } else {
        let p0 = ps[0];
        let rest = ps.skip(1);
        assert(ps[0].wf());
        lemma_step_param(st, p0, i);
        let st1 = ReadStateV {
            config: XmlConfigV {
                functions: if st.in_functions {
                    spec_add_param(st.config.functions, i, p0)
                } else {
                    st.config.functions
                },
                events: if st.in_functions {
                    st.config.events
                } else {
                    spec_add_param(st.config.events, i, p0)
                },
                ..st.config
            },
            ..st
        };
        assert(params_tags(ps)[0] == param_tag(p0));
        assert(params_tags(ps).skip(1) =~= params_tags(rest));
        assert forall|k: int| 0 <= k < rest.len() implies (#[trigger] rest[k]).wf() by {
            assert(rest[k] == ps[k + 1]);
        }
        lemma_fold_params(rest, st1, i);
        let act1 = if st.in_functions {
            st1.config.functions
        } else {
            st1.config.events
        };
        assert(act1 == spec_add_param(active, i, p0));
        assert(act1[i].parameters =~= active[i].parameters.push(p0));
        assert(act1[i].parameters + rest =~= active[i].parameters + ps);
        assert(append_params(act1, i, rest) =~= append_params(active, i, ps));
    }
}

/// Folding one written runnable entry appends it to the active list and
/// leaves it open.
proof fn lemma_fold_runnable(r: UiRunnableV, st: ReadStateV, is_functions: bool)
    requires
        r.wf(),
    ensures
        spec_fold(
            runnable_tags(
                r,
                if is_functions {
                    T_FUNCTION@
                } else {
                    T_EVENT@
                },
                if is_functions {
                    T_FUNCNAME@
                } else {
                    T_FSCOMMAND@
                },
            ),
            st,
        ) == Ok::<ReadStateV, crate::model::ParseError>(
            ReadStateV {
                config: XmlConfigV {
                    functions: if is_functions {
                        st.config.functions.push(r)
                    } else {
                        st.config.functions
                    },
                    events: if is_functions {
                        st.config.events
                    } else {
                        st.config.events.push(r)
                    },
                    ..st.config
                },
                in_functions: is_functions,
                current: Some(
                    if is_functions {
                        st.config.functions.len() as int
                    } else {
                        st.config.events.len() as int
                    },
                ),
            },
        ),
{
    let item = if is_functions {
        T_FUNCTION@
    } else {
        T_EVENT@
    };
    let dup = if is_functions {
        T_FUNCNAME@
    } else {
        T_FSCOMMAND@
    };
    let rattrs = spec_runnable_attrs(r, dup);
    let rtag = TagS { name: item, attrs: rattrs };
    assert(T_UIELEMENTS@.len() == 10 && T_UIELEMENT@.len() == 9 && T_GFX@.len() == 3
        && T_ALIGN@.len() == 5 && T_FUNCTION@.len() == 8 && T_EVENT@.len() == 5);
    assert(T_ALIGN@[0] == 65 && T_EVENT@[0] == 101);
    assert(item != T_UIELEMENTS@ && item != T_UIELEMENT@ && item != T_GFX@ && item != T_ALIGN@);
    assert(rattrs[0].name == T_NAME@);
    assert(spec_attr_of(rattrs, T_NAME@) == Some(r.name));
    let i = if is_functions {
        st.config.functions.len() as int
    } else {
        st.config.events.len() as int
    };
    let opened = UiRunnableV { name: r.name, parameters: Seq::empty() };
    let st1 = ReadStateV {
        config: XmlConfigV {
            functions: if is_functions {
                st.config.functions.push(opened)
            } else {
                st.config.functions
            },
            events: if is_functions {
                st.config.events
            } else {
                st.config.events.push(opened)
            },
            ..st.config
        },
        in_functions: is_functions,
        current: Some(i),
    };
    assert(spec_step(st, rtag) == Ok::<ReadStateV, crate::model::ParseError>(st1));
    assert(runnable_tags(r, item, dup) == seq![rtag] + params_tags(r.parameters));
    lemma_fold_append(seq![rtag], params_tags(r.parameters), st);
    assert((seq![rtag]).skip(1) =~= Seq::<TagS>::empty());
    assert((seq![rtag])[0] == rtag);
    assert(spec_fold(seq![rtag], st) == spec_fold(Seq::<TagS>::empty(), st1));
    assert(spec_fold(Seq::<TagS>::empty(), st1) == Ok::<ReadStateV, crate::model::ParseError>(
        st1,
    ));
    lemma_fold_params(r.parameters, st1, i);
    let act1 = if is_functions {
        st1.config.functions
    } else {
        st1.config.events
    };
    assert(act1[i] == opened);
    assert(act1[i].parameters + r.parameters =~= r.parameters);
    assert(append_params(act1, i, r.parameters)[i] == (UiRunnableV {
        name: r.name,
        parameters: act1[i].parameters + r.parameters,
    }));
    let target = if is_functions {
        st.config.functions.push(r)
    } else {
        st.config.events.push(r)
    };
    assert(r == (UiRunnableV { name: r.name, parameters: r.parameters }));
    assert(append_params(act1, i, r.parameters) =~= target);
}

/// Folding the written entries of one section appends them all, in order.
proof fn lemma_fold_runnables(rs: Seq<UiRunnableV>, st: ReadStateV, is_functions: bool)
    requires
        forall|k: int| 0 <= k < rs.len() ==> (#[trigger] rs[k]).wf(),
    ensures
        spec_fold(
            runnables_tags(
                rs,
                if is_functions {
                    T_FUNCTION@
                } else {
                    T_EVENT@
                },
                if is_functions {
                    T_FUNCNAME@
                } else {
                    T_FSCOMMAND@
                },
            ),
            st,
        ) == Ok::<ReadStateV, crate::model::ParseError>(
            ReadStateV {
                config: XmlConfigV {
                    functions: if is_functions {
                        st.config.functions + rs
                    } else {
                        st.config.functions
                    },
                    events: if is_functions {
                        st.config.events
                    } else {
                        st.config.events + rs
                    },
                    ..st.config
                },
                in_functions: if rs.len() > 0 {
                    is_functions
                } else {
                    st.in_functions
                },
                current: if rs.len() > 0 {
                    Some(
                        (if is_functions {
                            st.config.functions.len() + rs.len()
                        } else {
                            st.config.events.len() + rs.len()
                        }) - 1,
                    )
                } else {
                    st.current
                },
            },
        ),
    decreases rs.len(),
{
    let item = if is_functions {
        T_FUNCTION@
    } else {
        T_EVENT@
    };
    let dup = if is_functions {
        T_FUNCNAME@
    } else {
        T_FSCOMMAND@
    };
    if rs.len() == 0 {
        assert(st.config.functions + rs =~= st.config.functions);
        assert(st.config.events + rs =~= st.config.events);
        assert(st.config == (XmlConfigV {
            functions: st.config.functions,
            events: st.config.events,
            ..st.config
        }));
    } else {
        let r0 = rs[0];
        let rest = rs.skip(1);
        assert(rs[0].wf());
        assert forall|k: int| 0 <= k < rest.len() implies (#[trigger] rest[k]).wf() by {
            assert(rest[k] == rs[k + 1]);
        }
        assert(runnables_tags(rs, item, dup) == runnable_tags(r0, item, dup) + runnables_tags(
            rest,
            item,
            dup,
        ));
        lemma_fold_runnable(r0, st, is_functions);
        match spec_fold(runnable_tags(r0, item, dup), st) {
            Ok(st1) => {
                lemma_fold_append(
                    runnable_tags(r0, item, dup),
                    runnables_tags(rest, item, dup),
                    st,
                );
                lemma_fold_runnables(rest, st1, is_functions);
                if is_functions {
                    assert(st1.config.functions + rest =~= st.config.functions + rs);
                } else {
                    assert(st1.config.events + rest =~= st.config.events + rs);
                }
            },
            Err(e) => {
                assert(false);
            },
        }
    }
}

/// Folding one whole written section appends its entries; the section tag
/// itself changes nothing.
proof fn lemma_fold_section(rs: Seq<UiRunnableV>, st: ReadStateV, is_functions: bool)
    requires
        forall|k: int| 0 <= k < rs.len() ==> (#[trigger] rs[k]).wf(),
    ensures
        spec_fold(
            section_tags(
                rs,
                if is_functions {
                    T_FUNCTIONS@
                } else {
                    T_EVENTS@
                },
                if is_functions {
                    T_FUNCTION@
                } else {
                    T_EVENT@
                },
                if is_functions {
                    T_FUNCNAME@
                } else {
                    T_FSCOMMAND@
                },
            ),
            st,
        ) == Ok::<ReadStateV, crate::model::ParseError>(
            ReadStateV {
                config: XmlConfigV {
                    functions: if is_functions {
                        st.config.functions + rs
                    } else {
                        st.config.functions
                    },
                    events: if is_functions {
                        st.config.events
                    } else {
                        st.config.events + rs
                    },
                    ..st.config
                },
                in_functions: if rs.len() > 0 {
                    is_functions
                } else {
                    st.in_functions
                },
                current: if rs.len() > 0 {
                    Some(
                        (if is_functions {
                            st.config.functions.len() + rs.len()
                        } else {
                            st.config.events.len() + rs.len()
                        }) - 1,
                    )
                } else {
                    st.current
                },
            },
        ),
{
    let sec = if is_functions {
        T_FUNCTIONS@
    } else {
        T_EVENTS@
    };
    if rs.len() == 0 {
        assert(st.config.functions + rs =~= st.config.functions);
        assert(st.config.events + rs =~= st.config.events);
        assert(st.config == (XmlConfigV {
            functions: st.config.functions,
            events: st.config.events,
            ..st.config
        }));
    } else {
        let stag = TagS { name: sec, attrs: Seq::empty() };
        assert(T_UIELEMENTS@.len() == 10 && T_UIELEMENT@.len() == 9 && T_GFX@.len() == 3
            && T_ALIGN@.len() == 5 && T_FUNCTION@.len() == 8 && T_EVENT@.len() == 5
            && T_PARAM@.len() == 5 && T_FUNCTIONS@.len() == 9 && T_EVENTS@.len() == 6);
        assert(T_UIELEMENT@[0] == 85 && T_FUNCTIONS@[0] == 102);
        assert(sec != T_UIELEMENTS@ && sec != T_UIELEMENT@ && sec != T_GFX@ && sec != T_ALIGN@
            && sec != T_FUNCTION@ && sec != T_EVENT@ && sec != T_PARAM@);
        assert(spec_step(st, stag) == Ok::<ReadStateV, crate::model::ParseError>(st));
        let body = runnables_tags(
            rs,
            if is_functions {
                T_FUNCTION@
            } else {
                T_EVENT@
            },
            if is_functions {
                T_FUNCNAME@
            } else {
                T_FSCOMMAND@
            },
        );
        assert(section_tags(
            rs,
            sec,
            if is_functions {
                T_FUNCTION@
            } else {
                T_EVENT@
            },
            if is_functions {
                T_FUNCNAME@
            } else {
                T_FSCOMMAND@
            },
        ) == seq![stag] + body);
        lemma_fold_append(seq![stag], body, st);
        assert((seq![stag]).skip(1) =~= Seq::<TagS>::empty());
        assert((seq![stag])[0] == stag);
        assert(spec_fold(seq![stag], st) == spec_fold(Seq::<TagS>::empty(), st));
        assert(spec_fold(Seq::<TagS>::empty(), st) == Ok::<ReadStateV, crate::model::ParseError>(
            st,
        ));
        lemma_fold_runnables(rs, st, is_functions);
    }
}

/// Folding the written document head rebuilds the scalar fields; a
/// windowed (non-fullscreen) alignment comes back exactly.
proof fn lemma_fold_header(c: XmlConfigV)
    requires
        !c.fullscreen,
    ensures
        spec_fold(header_tags(c), ReadStateV::initial()) == Ok::<
            ReadStateV,
            crate::model::ParseError,
        >(
            ReadStateV {
                config: XmlConfigV {
                    ui_elements_name: c.ui_elements_name,
                    ui_element_name: c.ui_element_name,
                    gfx_file_name: Seq::empty(),
                    gfx_layer: c.gfx_layer,
                    fullscreen: false,
                    halign: c.halign,
                    valign: c.valign,
                    functions: Seq::empty(),
                    events: Seq::empty(),
                },
                in_functions: false,
                current: None,
            },
        ),
{
    let tags = header_tags(c);
    let st0 = ReadStateV::initial();
    assert(T_UIELEMENTS@.len() == 10 && T_UIELEMENT@.len() == 9 && T_GFX@.len() == 3
        && T_ALIGN@.len() == 5 && T_CONSTRAINTS@.len() == 11 && T_FUNCTION@.len() == 8
        && T_EVENT@.len() == 5 && T_PARAM@.len() == 5);
    assert(T_ALIGN@[0] == 65 && T_EVENT@[0] == 101 && T_PARAM@[0] == 112);
    assert(T_FILE@.len() == 4 && T_LAYER@.len() == 5 && T_MODE@.len() == 4 && T_VALIGN@.len()
        == 6 && T_HALIGN@.len() == 6);
    assert(T_VALIGN@[0] == 118 && T_HALIGN@[0] == 104);
    assert(T_DYNAMIC@.len() == 7 && T_FULLSCREEN@.len() == 10);

    let t1 = tags[0];
    let t2 = tags[1];
    let t3 = tags[2];
    let t4 = tags[3];
    let t5 = tags[4];

    // <UIElements name="...">
    assert(t1.attrs[0].name == T_NAME@);
    assert(spec_attr_of(t1.attrs, T_NAME@) == Some(c.ui_elements_name));
    let st1 = (match spec_step(st0, t1) {
        Ok(m) => m,
        Err(_) => st0,
    });
    assert(spec_step(st0, t1) == Ok::<ReadStateV, crate::model::ParseError>(st1));
    assert(st1.config.ui_elements_name == c.ui_elements_name);

    // <UIElement name="...">
    assert(t2.name != T_UIELEMENTS@);
    assert(t2.attrs[0].name == T_NAME@);
    assert(spec_attr_of(t2.attrs, T_NAME@) == Some(c.ui_element_name));
    let st2 = (match spec_step(st1, t2) {
        Ok(m) => m,
        Err(_) => st1,
    });
    assert(spec_step(st1, t2) == Ok::<ReadStateV, crate::model::ParseError>(st2));

    // <GFx file="..." layer="...">
    assert(t3.name != T_UIELEMENTS@ && t3.name != T_UIELEMENT@);
    assert(t3.attrs[0].name == T_FILE@);
    assert(t3.attrs.skip(1) =~= seq![
        AttrS { name: T_LAYER@, value: spec_dec(c.gfx_layer as nat) },
    ]);
    assert(spec_attr_of(t3.attrs, T_LAYER@) == spec_attr_of(t3.attrs.skip(1), T_LAYER@));
    assert(spec_attr_of(t3.attrs, T_LAYER@) == Some(spec_dec(c.gfx_layer as nat)));
    crate::numbers::lemma_dec_parse_round_trip(c.gfx_layer as nat);
    let st3 = (match spec_step(st2, t3) {
        Ok(m) => m,
        Err(_) => st2,
    });
    assert(spec_step(st2, t3) == Ok::<ReadStateV, crate::model::ParseError>(st3));
    assert(st3.config.gfx_layer == c.gfx_layer);

    // <Constraints> is not a tag the fold knows
    assert(t4.name == T_CONSTRAINTS@);
    assert(t4.name != T_UIELEMENTS@ && t4.name != T_UIELEMENT@ && t4.name != T_GFX@ && t4.name
        != T_ALIGN@ && t4.name != T_FUNCTION@ && t4.name != T_EVENT@ && t4.name != T_PARAM@);
    assert(spec_step(st3, t4) == Ok::<ReadStateV, crate::model::ParseError>(st3));

    // <Align mode="dynamic" valign="..." halign="..."/>
    assert(t5.name == T_ALIGN@);
    assert(t5.name != T_UIELEMENTS@ && t5.name != T_UIELEMENT@ && t5.name != T_GFX@);
    let aa = spec_align_attrs(c);
    let m0 = AttrS { name: T_MODE@, value: T_DYNAMIC@ };
    let v0 = AttrS { name: T_VALIGN@, value: c.valign.spec_text() };
    let h0 = AttrS { name: T_HALIGN@, value: c.halign.spec_text() };
    assert(aa =~= seq![m0, v0, h0]);
    assert(aa.skip(1) =~= seq![v0, h0]);
    assert((seq![v0, h0]).skip(1) =~= seq![h0]);
    assert(spec_attr_of(aa, T_MODE@) == Some(T_DYNAMIC@));
    assert(T_DYNAMIC@ != T_FULLSCREEN@);
    assert(spec_attr_of(aa, T_VALIGN@) == spec_attr_of(seq![v0, h0], T_VALIGN@));
    assert(spec_attr_of(aa, T_VALIGN@) == Some(c.valign.spec_text()));
    assert(spec_attr_of(aa, T_HALIGN@) == spec_attr_of(seq![v0, h0], T_HALIGN@));
    assert(spec_attr_of(seq![v0, h0], T_HALIGN@) == spec_attr_of(seq![h0], T_HALIGN@));
    assert(spec_attr_of(aa, T_HALIGN@) == Some(c.halign.spec_text()));
    lemma_valign_round(VAlign::Center, c.valign);
    lemma_halign_round(HAlign::Center, c.halign);
    let st5 = (match spec_step(st3, t5) {
        Ok(m) => m,
        Err(_) => st3,
    });
    assert(spec_step(st3, t5) == Ok::<ReadStateV, crate::model::ParseError>(st5));
    assert(st5.config.valign == c.valign);
    assert(st5.config.halign == c.halign);

    assert(tags.skip(1) =~= seq![t2, t3, t4, t5]);
    assert((seq![t2, t3, t4, t5]).skip(1) =~= seq![t3, t4, t5]);
    assert((seq![t3, t4, t5]).skip(1) =~= seq![t4, t5]);
    assert((seq![t4, t5]).skip(1) =~= seq![t5]);
    assert((seq![t5]).skip(1) =~= Seq::<TagS>::empty());
    assert(spec_fold(tags, st0) == spec_fold(seq![t2, t3, t4, t5], st1));
    assert((seq![t2, t3, t4, t5])[0] == t2);
    assert(spec_fold(seq![t2, t3, t4, t5], st1) == spec_fold(seq![t3, t4, t5], st2));
    assert((seq![t3, t4, t5])[0] == t3);
    assert(spec_fold(seq![t3, t4, t5], st2) == spec_fold(seq![t4, t5], st3));
    assert((seq![t4, t5])[0] == t4);
    assert(spec_fold(seq![t4, t5], st3) == spec_fold(seq![t5], st3));
    assert((seq![t5])[0] == t5);
    assert(spec_fold(seq![t5], st3) == spec_fold(Seq::<TagS>::empty(), st5));
    assert(spec_fold(Seq::<TagS>::empty(), st5) == Ok::<ReadStateV, crate::model::ParseError>(
        st5,
    ));
}

/// The round trip: reading back a written configuration restores every
/// field the reader covers — everything but the write-only `gfx_file_name`,
/// which reads back empty. This holds for every windowed (non-fullscreen)
/// configuration whose parameters all carry a declared type, as every
/// configuration the reader itself produces does.
pub proof fn lemma_read_of_write(c: XmlConfigV)
    requires
        !c.fullscreen,
        c.wf(),
    ensures
        spec_read(spec_write(c)) == Ok::<XmlConfigV, crate::model::ParseError>(
            XmlConfigV { gfx_file_name: Seq::empty(), ..c },
        ),
{
    lemma_scan_of_write(c);
    let ftags = section_tags(c.functions, T_FUNCTIONS@, T_FUNCTION@, T_FUNCNAME@);
    let etags = section_tags(c.events, T_EVENTS@, T_EVENT@, T_FSCOMMAND@);
    assert(written_tags(c) =~= header_tags(c) + (ftags + etags));
    lemma_fold_append(header_tags(c), ftags + etags, ReadStateV::initial());
    lemma_fold_header(c);
    match spec_fold(header_tags(c), ReadStateV::initial()) {
        Ok(sth) => {
            lemma_fold_append(ftags, etags, sth);
            lemma_fold_section(c.functions, sth, true);
            match spec_fold(ftags, sth) {
                Ok(stf) => {
                    lemma_fold_section(c.events, stf, false);
                    match spec_fold(etags, stf) {
                        Ok(ste) => {
                            assert(ste.config.functions =~= c.functions);
                            assert(ste.config.events =~= c.events);
                            assert(ste.config == (XmlConfigV {
                                gfx_file_name: Seq::empty(),
                                ..c
                            }));
                        },
                        Err(_) => {
                            assert(false);
                        },
                    }
                },
                Err(_) => {
                    assert(false);
                },
            }
        },
        Err(_) => {
            assert(false);
        },
    }
}

} // verus!
