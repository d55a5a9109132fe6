//! The reader: folds the scanned tags of a descriptor document into a
//! configuration, exactly as `spec_read` states it. The scan is flat: the
//! fold keeps only which list (`functions` or `events`) is active and which
//! entry of it is open, and a `<param>` with no open entry is dropped.
//!
//! A tag's required attribute (`name`, `layer`, `mode`, and the alignment
//! pair of a windowed `Align`) stops the read when absent; a parameter's
//! `desc` and `type` are optional, reading as the empty description and the
//! undeclared type — which is what the writer emits for them.

use vstd::prelude::*;

use crate::bytes_util::{bytes_eq, copy_bytes};
use crate::model::{
    AttrId, HAlign, ParameterType, ParseError, UiParameter, UiParameterV, UiRunnable,
    UiRunnableV, VAlign, XmlConfig, XmlConfigV,
};
use crate::numbers::{parse_usize, spec_parse_usize};
use crate::scan::{attr_value, scan, spec_attr_of, spec_scan, Tag, TagS};
use crate::tokens::{
    T_ALIGN, T_DESC, T_EVENT, T_FULLSCREEN, T_FUNCTION, T_GFX, T_HALIGN, T_LAYER, T_MODE,
    T_NAME, T_PARAM, T_TYPE, T_UIELEMENT, T_UIELEMENTS, T_VALIGN,
};

verus! {

/// The fold's running state: the configuration built so far, which list the
/// last opened runnable went into, and its index there.
pub struct ReadStateV {
    pub config: XmlConfigV,
    pub in_functions: bool,
    pub current: Option<int>,
}

impl ReadStateV {
    /// The state every read starts from: the default configuration, the
    /// events list active, no entry open.
    pub open spec fn initial() -> ReadStateV {
        ReadStateV { config: XmlConfigV::initial(), in_functions: false, current: None }
    }
}

/// Appends `param` to the runnable at `i` of `rs`; a stale index leaves the
/// list unchanged.
pub open spec fn spec_add_param(rs: Seq<UiRunnableV>, i: int, param: UiParameterV) -> Seq<
    UiRunnableV,
> {
    if 0 <= i < rs.len() {
        rs.update(i, UiRunnableV { name: rs[i].name, parameters: rs[i].parameters.push(param) })
    } else {
        rs
    }
}

/// What one scanned tag does to the fold's state. Unknown tag names change
/// nothing.
pub open spec fn spec_step(st: ReadStateV, t: TagS) -> Result<ReadStateV, ParseError> {
    let c = st.config;
    if t.name == T_UIELEMENTS@ {
        match spec_attr_of(t.attrs, T_NAME@) {
            Some(v) => Ok(ReadStateV { config: XmlConfigV { ui_elements_name: v, ..c }, ..st }),
            None => Err(ParseError::MissingAttribute(AttrId::Name)),
        }
    } else if t.name == T_UIELEMENT@ {
        match spec_attr_of(t.attrs, T_NAME@) {
            Some(v) => Ok(ReadStateV { config: XmlConfigV { ui_element_name: v, ..c }, ..st }),
            None => Err(ParseError::MissingAttribute(AttrId::Name)),
        }
    } else if t.name == T_GFX@ {
        match spec_attr_of(t.attrs, T_LAYER@) {
            Some(v) => match spec_parse_usize(v) {
                Some(n) => Ok(ReadStateV { config: XmlConfigV { gfx_layer: n, ..c }, ..st }),
                None => Err(ParseError::InvalidLayer),
            },
            None => Err(ParseError::MissingAttribute(AttrId::Layer)),
        }
    } else if t.name == T_ALIGN@ {
        match spec_attr_of(t.attrs, T_MODE@) {
            Some(m) => {
                if m == T_FULLSCREEN@ {
                    Ok(ReadStateV { config: XmlConfigV { fullscreen: true, ..c }, ..st })
                } else {
                    match spec_attr_of(t.attrs, T_VALIGN@) {
                        Some(va) => match spec_attr_of(t.attrs, T_HALIGN@) {
                            Some(ha) => Ok(
                                ReadStateV {
                                    config: XmlConfigV {
                                        fullscreen: false,
                                        valign: VAlign::spec_update(c.valign, va),
                                        halign: HAlign::spec_update(c.halign, ha),
                                        ..c
                                    },
                                    ..st
                                },
                            ),
                            None => Err(ParseError::MissingAttribute(AttrId::HAlignAttr)),
                        },
                        None => Err(ParseError::MissingAttribute(AttrId::VAlignAttr)),
                    }
                }
            },
            None => Err(ParseError::MissingAttribute(AttrId::Mode)),
        }
    } else if t.name == T_FUNCTION@ {
        match spec_attr_of(t.attrs, T_NAME@) {
            Some(v) => Ok(
                ReadStateV {
                    config: XmlConfigV {
                        functions: c.functions.push(
                            UiRunnableV { name: v, parameters: Seq::empty() },
                        ),
                        ..c
                    },
                    in_functions: true,
                    current: Some(c.functions.len() as int),
                },
            ),
            None => Err(ParseError::MissingAttribute(AttrId::Name)),
        }
    } else if t.name == T_EVENT@ {
        match spec_attr_of(t.attrs, T_NAME@) {
            Some(v) => Ok(
                ReadStateV {
                    config: XmlConfigV {
                        events: c.events.push(UiRunnableV { name: v, parameters: Seq::empty() }),
                        ..c
                    },
                    in_functions: false,
                    current: Some(c.events.len() as int),
                },
            ),
            None => Err(ParseError::MissingAttribute(AttrId::Name)),
        }
    } else if t.name == T_PARAM@ {
        match spec_attr_of(t.attrs, T_NAME@) {
            Some(v) => {
                let desc = match spec_attr_of(t.attrs, T_DESC@) {
                    Some(d) => d,
                    None => Seq::empty(),
                };
                let ty = match spec_attr_of(t.attrs, T_TYPE@) {
                    Some(tv) => ParameterType::spec_of_text(tv),
                    None => ParameterType::Any,
                };
                let param = UiParameterV { name: v, description: desc, type_: Some(ty) };
                match st.current {
                    None => Ok(st),
                    Some(i) => {
                        if st.in_functions {
                            Ok(
                                ReadStateV {
                                    config: XmlConfigV {
                                        functions: spec_add_param(c.functions, i, param),
                                        ..c
                                    },
                                    ..st
                                },
                            )
                        } else {
                            Ok(
                                ReadStateV {
                                    config: XmlConfigV {
                                        events: spec_add_param(c.events, i, param),
                                        ..c
                                    },
                                    ..st
                                },
                            )
                        }
                    },
                }
            },
            None => Err(ParseError::MissingAttribute(AttrId::Name)),
        }
    } else {
        Ok(st)
    }
}

/// Folds the tags from the front, stopping at the first error.
pub open spec fn spec_fold(tags: Seq<TagS>, st: ReadStateV) -> Result<ReadStateV, ParseError>
    decreases tags.len(),
{
    if tags.len() == 0 {
        Ok(st)
    } else {
        match spec_step(st, tags[0]) {
            Err(e) => Err(e),
            Ok(st2) => spec_fold(tags.skip(1), st2),
        }
    }
}

/// The configuration a document denotes: every scanned tag folded into the
/// default configuration, or the first error.
pub open spec fn spec_read(s: Seq<u8>) -> Result<XmlConfigV, ParseError> {
    match spec_scan(s, 0) {
        Err(()) => Err(ParseError::Syntax),
        Ok(tags) => match spec_fold(tags, ReadStateV::initial()) {
            Err(e) => Err(e),
            Ok(st) => Ok(st.config),
        },
    }
}

/// Executable form of the fold's state.
struct ReadState {
    config: XmlConfig,
    in_functions: bool,
    current: Option<usize>,
}

/// Mathematical image of `ReadState`.
spec fn view_state(st: ReadState) -> ReadStateV {
    ReadStateV {
        config: st.config@,
        in_functions: st.in_functions,
        current: match st.current {
            Some(i) => Some(i as int),
            None => None,
        },
    }
}

/// Appends `param` to the runnable at `i`.
fn add_param(rs: &mut Vec<UiRunnable>, i: usize, param: UiParameter)
    requires
        i < old(rs)@.len(),
    ensures
        final(rs)@.map_values(|r: UiRunnable| r@) == spec_add_param(
            old(rs)@.map_values(|r: UiRunnable| r@),
            i as int,
            param@,
        ),
{
    let ghost rsv = rs@.map_values(|r: UiRunnable| r@);
    let ghost pv = param@;
    let mut item = rs.remove(i);
    let ghost itemv = item@;
    proof {
        assert(itemv == rsv[i as int]);
    }
    item.parameters.push(param);
    proof {
        assert(item@.name == itemv.name);
        assert(item@.parameters =~= itemv.parameters.push(pv));
        assert(item@ == (UiRunnableV { name: itemv.name, parameters: itemv.parameters.push(pv) }));
    }
    rs.insert(i, item);
    proof {
        assert(rs@.map_values(|r: UiRunnable| r@) =~= spec_add_param(rsv, i as int, pv));
    }
}

/// Copies an optional attribute value, empty when absent.
fn copy_or_empty(v: Option<&Vec<u8>>) -> (r: Vec<u8>)
    ensures
        r@ == (match v {
            Some(x) => x@,
            None => Seq::<u8>::empty(),
        }),
{
    match v {
        Some(x) => copy_bytes(x.as_slice()),
        None => Vec::new(),
    }
}

/// Applies one scanned tag to the state; errors leave the state unchanged.
fn step(st: &mut ReadState, tag: &Tag) -> (r: Result<(), ParseError>)
    ensures
        match r {
            Ok(()) => spec_step(view_state(*old(st)), tag@) == Ok::<ReadStateV, ParseError>(
                view_state(*final(st)),
            ),
            Err(e) => spec_step(view_state(*old(st)), tag@) == Err::<ReadStateV, ParseError>(e),
        },
{
    let name = tag.name.as_slice();
    if bytes_eq(name, &T_UIELEMENTS) {
        match attr_value(&tag.attrs, &T_NAME) {
            Some(v) => {
                st.config.ui_elements_name = copy_bytes(v.as_slice());
                Ok(())
            },
            None => Err(ParseError::MissingAttribute(AttrId::Name)),
        }
    } else if bytes_eq(name, &T_UIELEMENT) {
        match attr_value(&tag.attrs, &T_NAME) {
            Some(v) => {
                st.config.ui_element_name = copy_bytes(v.as_slice());
                Ok(())
            },
            None => Err(ParseError::MissingAttribute(AttrId::Name)),
        }
    } else if bytes_eq(name, &T_GFX) {
        match attr_value(&tag.attrs, &T_LAYER) {
            Some(v) => match parse_usize(v.as_slice()) {
                Some(n) => {
                    st.config.gfx_layer = n;
                    Ok(())
                },
                None => Err(ParseError::InvalidLayer),
            },
            None => Err(ParseError::MissingAttribute(AttrId::Layer)),
        }
    } else if bytes_eq(name, &T_ALIGN) {
        match attr_value(&tag.attrs, &T_MODE) {
            Some(m) => {
                if bytes_eq(m.as_slice(), &T_FULLSCREEN) {
                    st.config.fullscreen = true;
                    Ok(())
                } else {
                    let va = match attr_value(&tag.attrs, &T_VALIGN) {
                        Some(va) => va,
                        None => {
                            return Err(ParseError::MissingAttribute(AttrId::VAlignAttr));
                        },
                    };
                    let ha = match attr_value(&tag.attrs, &T_HALIGN) {
                        Some(ha) => ha,
                        None => {
                            return Err(ParseError::MissingAttribute(AttrId::HAlignAttr));
                        },
                    };
                    st.config.fullscreen = false;
                    st.config.valign = VAlign::update(st.config.valign, va.as_slice());
                    st.config.halign = HAlign::update(st.config.halign, ha.as_slice());
                    Ok(())
                }
            },
            None => Err(ParseError::MissingAttribute(AttrId::Mode)),
        }
    } else if bytes_eq(name, &T_FUNCTION) {
        match attr_value(&tag.attrs, &T_NAME) {
            Some(v) => {
                let runnable = UiRunnable {
                    name: copy_bytes(v.as_slice()),
                    parameters: Vec::new(),
                };
                proof {
                    assert(runnable@.parameters =~= Seq::<UiParameterV>::empty());
                }
                st.current = Some(st.config.functions.len());
                st.in_functions = true;
                let ghost before = st.config.functions@.map_values(|r: UiRunnable| r@);
                st.config.functions.push(runnable);
                proof {
                    assert(st.config.functions@.map_values(|r: UiRunnable| r@) =~= before.push(
                        runnable@,
                    ));
                }
                Ok(())
            },
            None => Err(ParseError::MissingAttribute(AttrId::Name)),
        }
    } else if bytes_eq(name, &T_EVENT) {
        match attr_value(&tag.attrs, &T_NAME) {
            Some(v) => {
                let runnable = UiRunnable {
                    name: copy_bytes(v.as_slice()),
                    parameters: Vec::new(),
                };
                proof {
                    assert(runnable@.parameters =~= Seq::<UiParameterV>::empty());
                }
                st.current = Some(st.config.events.len());
                st.in_functions = false;
                let ghost before = st.config.events@.map_values(|r: UiRunnable| r@);
                st.config.events.push(runnable);
                proof {
                    assert(st.config.events@.map_values(|r: UiRunnable| r@) =~= before.push(
                        runnable@,
                    ));
                }
                Ok(())
            },
            None => Err(ParseError::MissingAttribute(AttrId::Name)),
        }
    } else if bytes_eq(name, &T_PARAM) {
        match attr_value(&tag.attrs, &T_NAME) {
            Some(v) => {
                let pname = copy_bytes(v.as_slice());
                let desc = copy_or_empty(attr_value(&tag.attrs, &T_DESC));
                let ty = match attr_value(&tag.attrs, &T_TYPE) {
                    Some(tv) => ParameterType::of_text(tv.as_slice()),
                    None => ParameterType::Any,
                };
                let param = UiParameter { name: pname, description: desc, type_: Some(ty) };
                match st.current {
                    None => Ok(()),
                    Some(i) => {
                        if st.in_functions {
                            if i < st.config.functions.len() {
                                add_param(&mut st.config.functions, i, param);
                            }
                            Ok(())
                        } else {
                            if i < st.config.events.len() {
                                add_param(&mut st.config.events, i, param);
                            }
                            Ok(())
                        }
                    },
                }
            },
            None => Err(ParseError::MissingAttribute(AttrId::Name)),
        }
    } else {
        Ok(())
    }
}

impl crate::model::XmlManager {
    /// Parses the bytes of a descriptor document into a configuration,
    /// exactly as `spec_read` states; the first malformed construct,
    /// missing required attribute, or bad `layer` number is the error.
    pub fn read_config(source: &[u8]) -> (r: Result<XmlConfig, ParseError>)
        ensures
            match r {
                Ok(c) => spec_read(source@) == Ok::<XmlConfigV, ParseError>(c@),
                Err(e) => spec_read(source@) == Err::<XmlConfigV, ParseError>(e),
            },
    {
        let tags = match scan(source) {
            Some(tags) => tags,
            None => {
                return Err(ParseError::Syntax);
            },
        };
        let ghost tagsv = tags@.map_values(|t: Tag| t@);
        let mut st = ReadState {
            config: XmlConfig::default(),
            in_functions: false,
            current: None,
        };
        proof {
            assert(view_state(st) == ReadStateV::initial());
            assert(tagsv.skip(0) =~= tagsv);
        }
        let mut i: usize = 0;
        while i < tags.len()
            invariant
                i <= tags@.len(),
                tagsv == tags@.map_values(|t: Tag| t@),
                spec_scan(source@, 0) == Ok::<Seq<TagS>, ()>(tagsv),
                spec_fold(tagsv, ReadStateV::initial()) == spec_fold(
                    tagsv.skip(i as int),
                    view_state(st),
                ),
            decreases tags@.len() - i,
        {
            proof {
                assert(tagsv.skip(i as int)[0] == tagsv[i as int]);
                assert(tagsv.skip(i as int).skip(1) =~= tagsv.skip(i + 1));
                assert(tagsv[i as int] == tags@[i as int]@);
            }
            let ghost stv = view_state(st);
            match step(&mut st, &tags[i]) {
                Ok(()) => {
                    proof {
                        assert(spec_fold(tagsv.skip(i as int), stv) == spec_fold(
                            tagsv.skip(i + 1),
                            view_state(st),
                        ));
                    }
                },
                Err(e) => {
                    proof {
                        assert(spec_fold(tagsv.skip(i as int), stv) == Err::<
                            ReadStateV,
                            ParseError,
                        >(e));
                        assert(spec_read(source@) == Err::<XmlConfigV, ParseError>(e));
                    }
                    return Err(e);
                },
            }
            i += 1;
        }
        proof {
            assert(tagsv.skip(i as int) =~= Seq::<TagS>::empty());
        }
        Ok(st.config)
    }
}

} // verus!
