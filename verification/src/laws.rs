//! Further laws of the codec, each proved against the same specifications
//! the reader's and writer's contracts use.

use vstd::prelude::*;

use crate::bytes_util::{lemma_to_lower_idempotent, spec_to_lower};
use crate::model::{HAlign, ParameterType, UiParameterV, UiRunnableV, VAlign, XmlConfigV};
use crate::reader::{spec_step, ReadStateV};
use crate::roundtrip::{header_tags, params_tags, runnables_tags, section_tags, written_tags};
use crate::scan::{spec_attr_of, AttrS, TagS};
use crate::tokens::{
    T_ALIGN, T_EVENT, T_EVENTS, T_FULLSCREEN, T_FUNCTION, T_FUNCTIONS, T_GFX, T_INT, T_MAXIMIZE,
    T_MODE, T_NAME, T_ONE, T_PARAM, T_SCALE, T_TYPE, T_UIELEMENT, T_UIELEMENTS,
};
use crate::writer::{
    spec_align_attrs, spec_empty_tag, spec_indent, spec_param_attrs, spec_runnable_attrs,
    spec_runnable_bytes, spec_section_bytes, spec_write,
};

verus! {

/// A fullscreen configuration writes `mode="fullscreen" scale="1"
/// maximize="1"` and no alignment attributes at all: the whole document is
/// the same whatever the alignment fields hold.
pub proof fn lemma_fullscreen_suppresses_alignment(c: XmlConfigV, va: VAlign, ha: HAlign)
    requires
        c.fullscreen,
    ensures
        spec_align_attrs(c) == seq![
            AttrS { name: T_MODE@, value: T_FULLSCREEN@ },
            AttrS { name: T_SCALE@, value: T_ONE@ },
            AttrS { name: T_MAXIMIZE@, value: T_ONE@ },
        ],
        spec_write(c) == spec_write(XmlConfigV { valign: va, halign: ha, ..c }),
{
    let c2 = XmlConfigV { valign: va, halign: ha, ..c };
    assert(spec_align_attrs(c2) == spec_align_attrs(c));
}

/// A parameter with an empty description and no declared type writes a
/// `<param>` tag carrying its name alone; one with a declared `Int` type
/// writes `type="int"` beside it.
pub proof fn lemma_param_attribute_omission(p: UiParameterV)
    ensures
        (p.description.len() == 0 && (p.type_ is None || p.type_ == Some(ParameterType::Any)))
            ==> spec_param_attrs(p) == seq![AttrS { name: T_NAME@, value: p.name }],
        (p.description.len() == 0 && p.type_ == Some(ParameterType::Int)) ==> spec_param_attrs(
            p,
        ) == seq![
            AttrS { name: T_NAME@, value: p.name },
            AttrS { name: T_TYPE@, value: T_INT@ },
        ],
{
    if p.description.len() == 0 && (p.type_ is None || p.type_ == Some(ParameterType::Any)) {
        assert(spec_param_attrs(p) =~= seq![AttrS { name: T_NAME@, value: p.name }]);
    }
    if p.description.len() == 0 && p.type_ == Some(ParameterType::Int) {
        assert(spec_param_attrs(p) =~= seq![
            AttrS { name: T_NAME@, value: p.name },
            AttrS { name: T_TYPE@, value: T_INT@ },
        ]);
    }
}

/// Every tag written for a section's entries is the entry tag itself or a
/// `<param>` tag.
proof fn lemma_runnables_tag_names(rs: Seq<UiRunnableV>, item: Seq<u8>, dup: Seq<u8>)
    ensures
        forall|k: int|
            0 <= k < runnables_tags(rs, item, dup).len() ==> ((#[trigger] runnables_tags(
                rs,
                item,
                dup,
            )[k]).name == item || runnables_tags(rs, item, dup)[k].name == T_PARAM@),
    decreases rs.len(),
{
    if rs.len() > 0 {
        let head = crate::roundtrip::runnable_tags(rs[0], item, dup);
        let tail = runnables_tags(rs.skip(1), item, dup);
        lemma_runnables_tag_names(rs.skip(1), item, dup);
        lemma_params_tag_names(rs[0].parameters);
        assert forall|k: int|
            0 <= k < runnables_tags(rs, item, dup).len() implies ((#[trigger] runnables_tags(
            rs,
            item,
            dup,
        )[k]).name == item || runnables_tags(rs, item, dup)[k].name == T_PARAM@) by {
            assert(runnables_tags(rs, item, dup) == head + tail);
            if k < head.len() {
                assert(runnables_tags(rs, item, dup)[k] == head[k]);
                if k >= 1 {
                    assert(head[k] == params_tags(rs[0].parameters)[k - 1]);
                }
            } else {
                assert(runnables_tags(rs, item, dup)[k] == tail[k - head.len()]);
            }
        }
    }
}

/// Every tag written for a parameter list is a `<param>` tag.
proof fn lemma_params_tag_names(ps: Seq<UiParameterV>)
    ensures
        forall|k: int|
            0 <= k < params_tags(ps).len() ==> (#[trigger] params_tags(ps)[k]).name == T_PARAM@,
    decreases ps.len(),
{
    if ps.len() > 0 {
        lemma_params_tag_names(ps.skip(1));
        assert forall|k: int|
            0 <= k < params_tags(ps).len() implies (#[trigger] params_tags(ps)[k]).name
            == T_PARAM@ by {
            if k >= 1 {
                assert(params_tags(ps)[k] == params_tags(ps.skip(1))[k - 1]);
            }
        }
    }
}

/// An empty functions list leaves no trace: the section's bytes are empty,
/// and no tag of the whole written document is named `functions` or
/// `function`. The same holds of events.
pub proof fn lemma_empty_section_omitted(c: XmlConfigV)
    ensures
        c.functions.len() == 0 ==> spec_section_bytes(
            c.functions,
            T_FUNCTIONS@,
            T_FUNCTION@,
            crate::tokens::T_FUNCNAME@,
        ) == Seq::<u8>::empty(),
        c.functions.len() == 0 ==> (forall|k: int|
            0 <= k < written_tags(c).len() ==> (#[trigger] written_tags(c)[k]).name
                != T_FUNCTIONS@ && written_tags(c)[k].name != T_FUNCTION@),
        c.events.len() == 0 ==> spec_section_bytes(
            c.events,
            T_EVENTS@,
            T_EVENT@,
            crate::tokens::T_FSCOMMAND@,
        ) == Seq::<u8>::empty(),
        c.events.len() == 0 ==> (forall|k: int|
            0 <= k < written_tags(c).len() ==> (#[trigger] written_tags(c)[k]).name != T_EVENTS@
                && written_tags(c)[k].name != T_EVENT@),
{
    let ftags = section_tags(c.functions, T_FUNCTIONS@, T_FUNCTION@, crate::tokens::T_FUNCNAME@);
    let etags = section_tags(c.events, T_EVENTS@, T_EVENT@, crate::tokens::T_FSCOMMAND@);
    assert(T_UIELEMENTS@.len() == 10 && T_UIELEMENT@.len() == 9 && T_GFX@.len() == 3
        && crate::tokens::T_CONSTRAINTS@.len() == 11 && T_ALIGN@.len() == 5 && T_FUNCTIONS@.len()
        == 9 && T_FUNCTION@.len() == 8 && T_EVENTS@.len() == 6 && T_EVENT@.len() == 5
        && T_PARAM@.len() == 5);
    assert(T_UIELEMENT@[0] == 85 && T_FUNCTIONS@[0] == 102);
    assert(T_ALIGN@[0] == 65 && T_EVENT@[0] == 101 && T_PARAM@[0] == 112);
    lemma_runnables_tag_names(c.functions, T_FUNCTION@, crate::tokens::T_FUNCNAME@);
    lemma_runnables_tag_names(c.events, T_EVENT@, crate::tokens::T_FSCOMMAND@);
    if c.functions.len() == 0 {
        assert forall|k: int|
            0 <= k < written_tags(c).len() implies (#[trigger] written_tags(c)[k]).name
            != T_FUNCTIONS@ && written_tags(c)[k].name != T_FUNCTION@ by {
            assert(written_tags(c) == header_tags(c) + ftags + etags);
            assert(ftags =~= Seq::<TagS>::empty());
            if k < header_tags(c).len() {
                assert(written_tags(c)[k] == header_tags(c)[k]);
            } else {
                assert(written_tags(c)[k] == etags[k - header_tags(c).len() - ftags.len()]);
                if k - header_tags(c).len() - ftags.len() >= 1 {
                    assert(etags[k - header_tags(c).len() - ftags.len()] == runnables_tags(
                        c.events,
                        T_EVENT@,
                        crate::tokens::T_FSCOMMAND@,
                    )[k - header_tags(c).len() - ftags.len() - 1]);
                }
            }
        }
    }
    if c.events.len() == 0 {
        assert forall|k: int|
            0 <= k < written_tags(c).len() implies (#[trigger] written_tags(c)[k]).name
            != T_EVENTS@ && written_tags(c)[k].name != T_EVENT@ by {
            assert(written_tags(c) == header_tags(c) + ftags + etags);
            assert(etags =~= Seq::<TagS>::empty());
            if k < header_tags(c).len() {
                assert(written_tags(c)[k] == header_tags(c)[k]);
            } else {
                assert(written_tags(c)[k] == (header_tags(c) + ftags)[k]);
                assert(written_tags(c)[k] == ftags[k - header_tags(c).len()]);
                if k - header_tags(c).len() >= 1 {
                    assert(ftags[k - header_tags(c).len()] == runnables_tags(
                        c.functions,
                        T_FUNCTION@,
                        crate::tokens::T_FUNCNAME@,
                    )[k - header_tags(c).len() - 1]);
                }
            }
        }
    }
}

/// A runnable without parameters is written as one self-closing line: its
/// bytes are a line break, the indentation, and a single empty tag whose
/// last two bytes are `/>`.
pub proof fn lemma_empty_runnable_self_closing(r: UiRunnableV, item: Seq<u8>, dup: Seq<u8>)
    requires
        r.parameters.len() == 0,
    ensures
        spec_runnable_bytes(r, item, dup) == spec_indent(3) + spec_empty_tag(
            item,
            spec_runnable_attrs(r, dup),
        ),
        spec_runnable_bytes(r, item, dup)[spec_runnable_bytes(r, item, dup).len() - 2] == 47,
        spec_runnable_bytes(r, item, dup)[spec_runnable_bytes(r, item, dup).len() - 1] == 62,
{
    let b = spec_runnable_bytes(r, item, dup);
    let et = spec_empty_tag(item, spec_runnable_attrs(r, dup));
    assert(et[et.len() - 2] == 47 && et[et.len() - 1] == 62);
    assert(b[b.len() - 2] == et[et.len() - 2]);
    assert(b[b.len() - 1] == et[et.len() - 1]);
}

/// A `<param>` tag met while no runnable is open is dropped silently: the
/// read goes on from the same state, with no error, as long as the tag
/// carries its required `name` attribute.
pub proof fn lemma_orphan_param_dropped(st: ReadStateV, t: TagS)
    requires
        st.current is None,
        t.name == T_PARAM@,
        spec_attr_of(t.attrs, T_NAME@) is Some,
    ensures
        spec_step(st, t) == Ok::<ReadStateV, crate::model::ParseError>(st),
{
    assert(T_PARAM@.len() == 5 && T_UIELEMENTS@.len() == 10 && T_UIELEMENT@.len() == 9
        && T_GFX@.len() == 3 && T_ALIGN@.len() == 5 && T_FUNCTION@.len() == 8 && T_EVENT@.len()
        == 5);
    assert(T_ALIGN@[0] == 65 && T_EVENT@[0] == 101 && T_PARAM@[0] == 112);
    assert(t.name != T_UIELEMENTS@ && t.name != T_UIELEMENT@ && t.name != T_GFX@ && t.name
        != T_ALIGN@ && t.name != T_FUNCTION@ && t.name != T_EVENT@);
}

/// Only `<function>` and `<event>` tags open a runnable or touch the two
/// lists: any other tag leaves the open entry and both lists as they were,
/// whenever it does not stop the read.
pub proof fn lemma_only_runnable_tags_open(st: ReadStateV, t: TagS, st2: ReadStateV)
    requires
        t.name != T_FUNCTION@,
        t.name != T_EVENT@,
        spec_step(st, t) == Ok::<ReadStateV, crate::model::ParseError>(st2),
    ensures
        st2.current == st.current,
        st2.in_functions == st.in_functions,
        t.name == T_PARAM@ || st2.config.functions == st.config.functions,
        t.name == T_PARAM@ || st2.config.events == st.config.events,
{
}

/// Alignment values are read without regard to case: a value and its
/// lowercase form name the same alignment.
pub proof fn lemma_alignment_case_insensitive(prior_v: VAlign, prior_h: HAlign, value: Seq<u8>)
    ensures
        VAlign::spec_update(prior_v, value) == VAlign::spec_update(
            prior_v,
            spec_to_lower(value),
        ),
        HAlign::spec_update(prior_h, value) == HAlign::spec_update(
            prior_h,
            spec_to_lower(value),
        ),
{
    lemma_to_lower_idempotent(value);
}

} // verus!
