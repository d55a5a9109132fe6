//! The editor's form state: the paths and names the user fills in, the two
//! runnable lists being edited, and the state transitions the widgets
//! trigger. Everything that needs a dialog, the file system or the external
//! exporter is handed back to the caller as a `UiAction`.

use vstd::prelude::*;

use crate::app_state::ApplicationConfig;
use crate::bytes_util::copy_bytes;
use crate::model::{
    HAlign, ParameterType, UiParameter, UiParameterV, UiRunnable, UiRunnableV, VAlign, XmlConfig,
};
use crate::numbers::{parse_usize, spec_parse_usize};
use crate::tokens::{T_EVENT_NAME, T_FUNCTION_NAME, T_PARAMETER_DESCRIPTION, T_PARAMETER_NAME};

verus! {

/// Which of the two runnable lists the editor currently shows.
#[derive(Clone, Copy, Debug, PartialEq, Eq, Structural)]
pub enum EntityList {
    Functions,
    Events,
}

/// What a widget event asks the form to do. Events that only move form
/// state are handled here; the rest name outside work for the caller.
#[derive(Clone, Debug)]
pub enum MainLayoutMessage {
    SelectPathToGfxExportBin,
    SelectPathToSwfFile,
    SelectPathToGfxOutput,
    SelectPathToXmlOutput,
    ShowFunctions,
    ShowEvents,
    EntityListAddClicked,
    EntityListAddParameterClicked(usize),
    GenerateClicked,
    AdditionalGfxExportArgsChanged(String),
    UiElementsTextChanged(Vec<u8>),
    UiElementTextChanged(Vec<u8>),
    GfxLayerTextChanged(Vec<u8>),
    EntityListItemChanged(usize, Vec<u8>),
    EntityListRemoveItem(usize),
    EntityListParameterNameChanged(usize, usize, Vec<u8>),
    EntityListRemoveParameter(usize, usize),
    EntityListParameterDescriptionChanged(usize, usize, Vec<u8>),
    EntityListParameterTypeChanged(usize, usize, ParameterType),
    HorizontalAlignChanged(HAlign),
    VerticalAlignChanged(VAlign),
    FullscreenChanged(bool),
}

/// Outside work the caller must perform after an update: show a file
/// dialog, or run the generation pipeline. `Handled` means the form dealt
/// with the event itself.
#[derive(Clone, Copy, Debug, PartialEq, Eq, Structural)]
pub enum UiAction {
    Handled,
    SelectPathToGfxExportBin,
    SelectPathToSwfFile,
    SelectPathToGfxOutput,
    SelectPathToXmlOutput,
    Generate,
}

/// The whole form.
#[derive(Debug)]
pub struct MainLayout {
    pub path_to_gfxexport_bin: String,
    pub path_to_swf_file: String,
    pub path_to_gfx_dir: String,
    pub path_to_xml_dir: String,
    pub additional_gfxexport_args: String,
    pub ui_elements_name: Vec<u8>,
    pub ui_element_name: Vec<u8>,
    pub current_list: EntityList,
    pub functions: Vec<UiRunnable>,
    pub events: Vec<UiRunnable>,
    pub halign: Option<HAlign>,
    pub valign: Option<VAlign>,
    pub gfx_layer: usize,
    pub fullscreen: bool,
}

/// The functions list, as a sequence of values.
pub open spec fn fview(l: MainLayout) -> Seq<UiRunnableV> {
    l.functions@.map_values(|r: UiRunnable| r@)
}

/// The events list, as a sequence of values.
pub open spec fn eview(l: MainLayout) -> Seq<UiRunnableV> {
    l.events@.map_values(|r: UiRunnable| r@)
}

/// The list the editor currently shows, as a sequence of values.
pub open spec fn active_view(l: MainLayout) -> Seq<UiRunnableV> {
    match l.current_list {
        EntityList::Functions => fview(l),
        EntityList::Events => eview(l),
    }
}

/// The two layouts agree on everything but the two runnable lists.
pub open spec fn eq_but_lists(a: MainLayout, b: MainLayout) -> bool {
    &&& a.path_to_gfxexport_bin == b.path_to_gfxexport_bin
    &&& a.path_to_swf_file == b.path_to_swf_file
    &&& a.path_to_gfx_dir == b.path_to_gfx_dir
    &&& a.path_to_xml_dir == b.path_to_xml_dir
    &&& a.additional_gfxexport_args == b.additional_gfxexport_args
    &&& a.ui_elements_name == b.ui_elements_name
    &&& a.ui_element_name == b.ui_element_name
    &&& a.current_list == b.current_list
    &&& a.halign == b.halign
    &&& a.valign == b.valign
    &&& a.gfx_layer == b.gfx_layer
    &&& a.fullscreen == b.fullscreen
}

/// `rs` with the name of the entry at `i` replaced.
pub open spec fn spec_rename_at(rs: Seq<UiRunnableV>, i: int, name: Seq<u8>) -> Seq<UiRunnableV> {
    rs.update(i, UiRunnableV { name, parameters: rs[i].parameters })
}

/// `rs` with the parameter list of the entry at `i` replaced.
pub open spec fn spec_with_params_at(
    rs: Seq<UiRunnableV>,
    i: int,
    ps: Seq<UiParameterV>,
) -> Seq<UiRunnableV> {
    rs.update(i, UiRunnableV { name: rs[i].name, parameters: ps })
}

impl MainLayout {
    /// A fresh form: the remembered exporter path and arguments from the
    /// application configuration, everything else empty, the functions list
    /// shown, centered windowed alignment, layer zero.
    pub fn new(app_config: &ApplicationConfig) -> (r: Self)
        ensures
            r.path_to_gfxexport_bin == app_config.path_to_gfxexport_bin,
            r.additional_gfxexport_args == app_config.additional_gfxexport_args,
            r.path_to_swf_file@ == Seq::<char>::empty(),
            r.path_to_gfx_dir@ == Seq::<char>::empty(),
            r.path_to_xml_dir@ == Seq::<char>::empty(),
            r.ui_elements_name@ == Seq::<u8>::empty(),
            r.ui_element_name@ == Seq::<u8>::empty(),
            r.current_list == EntityList::Functions,
            fview(r) == Seq::<UiRunnableV>::empty(),
            eview(r) == Seq::<UiRunnableV>::empty(),
            r.halign == Some(HAlign::Center),
            r.valign == Some(VAlign::Center),
            r.gfx_layer == 0,
            r.fullscreen == false,
    {
        let r = MainLayout {
            path_to_gfxexport_bin: app_config.path_to_gfxexport_bin.clone(),
            path_to_swf_file: String::new(),
            path_to_gfx_dir: String::new(),
            path_to_xml_dir: String::new(),
            additional_gfxexport_args: app_config.additional_gfxexport_args.clone(),
            ui_elements_name: Vec::new(),
            ui_element_name: Vec::new(),
            current_list: EntityList::Functions,
            functions: Vec::new(),
            events: Vec::new(),
            halign: Some(HAlign::Center),
            valign: Some(VAlign::Center),
            gfx_layer: 0,
            fullscreen: false,
        };
        proof {
            assert(fview(r) =~= Seq::<UiRunnableV>::empty());
            assert(eview(r) =~= Seq::<UiRunnableV>::empty());
        }
        r
    }

    /// True exactly when every field the generation step needs is filled:
    /// the exporter path, the movie path, both output directories, and both
    /// element names.
    pub fn are_all_required_fields_filled(&self) -> (r: bool)
        ensures
            r <==> (self.path_to_gfxexport_bin@.len() > 0 && self.path_to_swf_file@.len() > 0
                && self.path_to_gfx_dir@.len() > 0 && self.path_to_xml_dir@.len() > 0
                && self.ui_elements_name@.len() > 0 && self.ui_element_name@.len() > 0),
    {
        !(self.path_to_gfxexport_bin.as_str().is_empty()
            || self.path_to_swf_file.as_str().is_empty()
            || self.path_to_gfx_dir.as_str().is_empty()
            || self.path_to_xml_dir.as_str().is_empty() || self.ui_elements_name.is_empty()
            || self.ui_element_name.is_empty())
    }

    /// Stores the extra exporter arguments.
    pub fn update_additional_gfxexport_args(&mut self, args: String)
        ensures
            *final(self) == (MainLayout { additional_gfxexport_args: args, ..*old(self) }),
    {
        self.additional_gfxexport_args = args;
    }

    /// Stores the group name.
    pub fn update_ui_elements_name(&mut self, elements_name: Vec<u8>)
        ensures
            *final(self) == (MainLayout { ui_elements_name: elements_name, ..*old(self) }),
    {
        self.ui_elements_name = elements_name;
    }

    /// Stores the element name.
    pub fn update_ui_element_name(&mut self, element_name: Vec<u8>)
        ensures
            *final(self) == (MainLayout { ui_element_name: element_name, ..*old(self) }),
    {
        self.ui_element_name = element_name;
    }

    /// Shows the functions list.
    pub fn show_functions(&mut self)
        ensures
            *final(self) == (MainLayout { current_list: EntityList::Functions, ..*old(self) }),
    {
        self.current_list = EntityList::Functions;
    }

    /// Shows the events list.
    pub fn show_events(&mut self)
        ensures
            *final(self) == (MainLayout { current_list: EntityList::Events, ..*old(self) }),
    {
        self.current_list = EntityList::Events;
    }

    /// Stores the fullscreen flag.
    pub fn update_fullscreen(&mut self, fullscreen: bool)
        ensures
            *final(self) == (MainLayout { fullscreen, ..*old(self) }),
    {
        self.fullscreen = fullscreen;
    }

    /// Stores the horizontal alignment.
    pub fn update_horizontal_align(&mut self, halign: HAlign)
        ensures
            *final(self) == (MainLayout { halign: Some(halign), ..*old(self) }),
    {
        self.halign = Some(halign);
    }

    /// Stores the vertical alignment.
    pub fn update_vertical_align(&mut self, valign: VAlign)
        ensures
            *final(self) == (MainLayout { valign: Some(valign), ..*old(self) }),
    {
        self.valign = Some(valign);
    }

    /// Parses the layer text and stores it; text that is not an unsigned
    /// decimal number leaves the stored layer as it was.
    pub fn update_gfx_layer(&mut self, gfx_layer: &[u8]) -> (r: bool)
        ensures
            match spec_parse_usize(gfx_layer@) {
                Some(n) => r == true && *final(self) == (MainLayout {
                    gfx_layer: n,
                    ..*old(self)
                }),
                None => r == false && *final(self) == *old(self),
            },
    {
        match parse_usize(gfx_layer) {
            Some(n) => {
                self.gfx_layer = n;
                true
            },
            None => false,
        }
    }

    /// Renames the entry at `index` of the shown list.
    pub fn update_list_item(&mut self, index: usize, newname: Vec<u8>)
        requires
            index < active_view(*old(self)).len(),
        ensures
            eq_but_lists(*final(self), *old(self)),
            active_view(*final(self)) == spec_rename_at(
                active_view(*old(self)),
                index as int,
                newname@,
            ),
            match old(self).current_list {
                EntityList::Functions => final(self).events == old(self).events,
                EntityList::Events => final(self).functions == old(self).functions,
            },
    {
        match self.current_list {
            EntityList::Functions => {
                let mut item = self.functions.remove(index);
                item.name = newname;
                self.functions.insert(index, item);
                proof {
                    assert(fview(*self) =~= spec_rename_at(
                        fview(*old(self)),
                        index as int,
                        item.name@,
                    ));
                }
            },
            EntityList::Events => {
                let mut item = self.events.remove(index);
                item.name = newname;
                self.events.insert(index, item);
                proof {
                    assert(eview(*self) =~= spec_rename_at(
                        eview(*old(self)),
                        index as int,
                        item.name@,
                    ));
                }
            },
        }
    }

    /// Removes the entry at `index` of the shown list.
    pub fn remove_list_item(&mut self, index: usize)
        requires
            index < active_view(*old(self)).len(),
        ensures
            eq_but_lists(*final(self), *old(self)),
            active_view(*final(self)) == active_view(*old(self)).remove(index as int),
            match old(self).current_list {
                EntityList::Functions => final(self).events == old(self).events,
                EntityList::Events => final(self).functions == old(self).functions,
            },
    {
        match self.current_list {
            EntityList::Functions => {
                self.functions.remove(index);
                proof {
                    assert(fview(*self) =~= fview(*old(self)).remove(index as int));
                }
            },
            EntityList::Events => {
                self.events.remove(index);
                proof {
                    assert(eview(*self) =~= eview(*old(self)).remove(index as int));
                }
            },
        }
    }

    /// Appends a new entry, named for its kind, to the shown list.
    pub fn add_list_item(&mut self)
        ensures
            eq_but_lists(*final(self), *old(self)),
            active_view(*final(self)) == active_view(*old(self)).push(
                UiRunnableV {
                    name: match old(self).current_list {
                        EntityList::Functions => T_FUNCTION_NAME@,
                        EntityList::Events => T_EVENT_NAME@,
                    },
                    parameters: Seq::empty(),
                },
            ),
            match old(self).current_list {
                EntityList::Functions => final(self).events == old(self).events,
                EntityList::Events => final(self).functions == old(self).functions,
            },
    {
        match self.current_list {
            EntityList::Functions => {
                let item = UiRunnable { name: copy_bytes(&T_FUNCTION_NAME), parameters: Vec::new() };
                proof {
                    assert(item@.parameters =~= Seq::<UiParameterV>::empty());
                }
                self.functions.push(item);
                proof {
                    assert(fview(*self) =~= fview(*old(self)).push(
                        UiRunnableV { name: T_FUNCTION_NAME@, parameters: Seq::empty() },
                    ));
                }
            },
            EntityList::Events => {
                let item = UiRunnable { name: copy_bytes(&T_EVENT_NAME), parameters: Vec::new() };
                proof {
                    assert(item@.parameters =~= Seq::<UiParameterV>::empty());
                }
                self.events.push(item);
                proof {
                    assert(eview(*self) =~= eview(*old(self)).push(
                        UiRunnableV { name: T_EVENT_NAME@, parameters: Seq::empty() },
                    ));
                }
            },
        }
    }

    /// Appends a placeholder parameter to the entry at `item_index` of the
    /// shown list.
    pub fn add_list_item_parameter(&mut self, item_index: usize)
        requires
            item_index < active_view(*old(self)).len(),
        ensures
            eq_but_lists(*final(self), *old(self)),
            active_view(*final(self)) == spec_with_params_at(
                active_view(*old(self)),
                item_index as int,
                active_view(*old(self))[item_index as int].parameters.push(
                    UiParameterV {
                        name: T_PARAMETER_NAME@,
                        description: T_PARAMETER_DESCRIPTION@,
                        type_: Some(ParameterType::Any),
                    },
                ),
            ),
            match old(self).current_list {
                EntityList::Functions => final(self).events == old(self).events,
                EntityList::Events => final(self).functions == old(self).functions,
            },
    {
        let parameter = UiParameter {
            name: copy_bytes(&T_PARAMETER_NAME),
            description: copy_bytes(&T_PARAMETER_DESCRIPTION),
            type_: Some(ParameterType::Any),
        };
        let ghost pv = parameter@;
        match self.current_list {
            EntityList::Functions => {
                let mut item = self.functions.remove(item_index);
                let ghost iv = item@;
                item.parameters.push(parameter);
                proof {
                    assert(item@.parameters =~= iv.parameters.push(pv));
                }
                self.functions.insert(item_index, item);
                proof {
                    assert(fview(*self) =~= spec_with_params_at(
                        fview(*old(self)),
                        item_index as int,
                        iv.parameters.push(pv),
                    ));
                }
            },
            EntityList::Events => {
                let mut item = self.events.remove(item_index);
                let ghost iv = item@;
                item.parameters.push(parameter);
                proof {
                    assert(item@.parameters =~= iv.parameters.push(pv));
                }
                self.events.insert(item_index, item);
                proof {
                    assert(eview(*self) =~= spec_with_params_at(
                        eview(*old(self)),
                        item_index as int,
                        iv.parameters.push(pv),
                    ));
                }
            },
        }
    }

    /// Replaces the declared type of one parameter of the shown list.
    pub fn update_list_parameter_type(
        &mut self,
        item_index: usize,
        param_index: usize,
        type_: ParameterType,
    )
        requires
            item_index < active_view(*old(self)).len(),
            param_index < active_view(*old(self))[item_index as int].parameters.len(),
        ensures
            eq_but_lists(*final(self), *old(self)),
            active_view(*final(self)) == spec_with_params_at(
                active_view(*old(self)),
                item_index as int,
                active_view(*old(self))[item_index as int].parameters.update(
                    param_index as int,
                    UiParameterV {
                        type_: Some(type_),
                        ..active_view(*old(self))[item_index as int].parameters[param_index as int]
                    },
                ),
            ),
            match old(self).current_list {
                EntityList::Functions => final(self).events == old(self).events,
                EntityList::Events => final(self).functions == old(self).functions,
            },
    {
        match self.current_list {
            EntityList::Functions => {
                let mut item = self.functions.remove(item_index);
                let ghost iv = item@;
                let mut parameter = item.parameters.remove(param_index);
                let ghost pv = parameter@;
                parameter.type_ = Some(type_);
                item.parameters.insert(param_index, parameter);
                proof {
                    assert(item@.parameters =~= iv.parameters.update(
                        param_index as int,
                        UiParameterV { type_: Some(type_), ..pv },
                    ));
                }
                self.functions.insert(item_index, item);
                proof {
                    assert(fview(*self) =~= spec_with_params_at(
                        fview(*old(self)),
                        item_index as int,
                        iv.parameters.update(
                            param_index as int,
                            UiParameterV { type_: Some(type_), ..pv },
                        ),
                    ));
                }
            },
            EntityList::Events => {
                let mut item = self.events.remove(item_index);
                let ghost iv = item@;
                let mut parameter = item.parameters.remove(param_index);
                let ghost pv = parameter@;
                parameter.type_ = Some(type_);
                item.parameters.insert(param_index, parameter);
                proof {
                    assert(item@.parameters =~= iv.parameters.update(
                        param_index as int,
                        UiParameterV { type_: Some(type_), ..pv },
                    ));
                }
                self.events.insert(item_index, item);
                proof {
                    assert(eview(*self) =~= spec_with_params_at(
                        eview(*old(self)),
                        item_index as int,
                        iv.parameters.update(
                            param_index as int,
                            UiParameterV { type_: Some(type_), ..pv },
                        ),
                    ));
                }
            },
        }
    }

    /// Replaces the name of one parameter of the shown list.
    pub fn update_list_parameter_name(
        &mut self,
        item_index: usize,
        param_index: usize,
        newname: Vec<u8>,
    )
        requires
            item_index < active_view(*old(self)).len(),
            param_index < active_view(*old(self))[item_index as int].parameters.len(),
        ensures
            eq_but_lists(*final(self), *old(self)),
            active_view(*final(self)) == spec_with_params_at(
                active_view(*old(self)),
                item_index as int,
                active_view(*old(self))[item_index as int].parameters.update(
                    param_index as int,
                    UiParameterV {
                        name: newname@,
                        ..active_view(*old(self))[item_index as int].parameters[param_index as int]
                    },
                ),
            ),
            match old(self).current_list {
                EntityList::Functions => final(self).events == old(self).events,
                EntityList::Events => final(self).functions == old(self).functions,
            },
    {
        let ghost nv = newname@;
        match self.current_list {
            EntityList::Functions => {
                let mut item = self.functions.remove(item_index);
                let ghost iv = item@;
                let mut parameter = item.parameters.remove(param_index);
                let ghost pv = parameter@;
                parameter.name = newname;
                item.parameters.insert(param_index, parameter);
                proof {
                    assert(item@.parameters =~= iv.parameters.update(
                        param_index as int,
                        UiParameterV { name: nv, ..pv },
                    ));
                }
                self.functions.insert(item_index, item);
                proof {
                    assert(fview(*self) =~= spec_with_params_at(
                        fview(*old(self)),
                        item_index as int,
                        iv.parameters.update(param_index as int, UiParameterV { name: nv, ..pv }),
                    ));
                }
            },
            EntityList::Events => {
                let mut item = self.events.remove(item_index);
                let ghost iv = item@;
                let mut parameter = item.parameters.remove(param_index);
                let ghost pv = parameter@;
                parameter.name = newname;
                item.parameters.insert(param_index, parameter);
                proof {
                    assert(item@.parameters =~= iv.parameters.update(
                        param_index as int,
                        UiParameterV { name: nv, ..pv },
                    ));
                }
                self.events.insert(item_index, item);
                proof {
                    assert(eview(*self) =~= spec_with_params_at(
                        eview(*old(self)),
                        item_index as int,
                        iv.parameters.update(param_index as int, UiParameterV { name: nv, ..pv }),
                    ));
                }
            },
        }
    }

    /// Replaces the description of one parameter of the shown list.
    pub fn update_list_parameter_description(
        &mut self,
        item_index: usize,
        param_index: usize,
        newdesc: Vec<u8>,
    )
        requires
            item_index < active_view(*old(self)).len(),
            param_index < active_view(*old(self))[item_index as int].parameters.len(),
        ensures
            eq_but_lists(*final(self), *old(self)),
            active_view(*final(self)) == spec_with_params_at(
                active_view(*old(self)),
                item_index as int,
                active_view(*old(self))[item_index as int].parameters.update(
                    param_index as int,
                    UiParameterV {
                        description: newdesc@,
                        ..active_view(*old(self))[item_index as int].parameters[param_index as int]
                    },
                ),
            ),
            match old(self).current_list {
                EntityList::Functions => final(self).events == old(self).events,
                EntityList::Events => final(self).functions == old(self).functions,
            },
    {
        let ghost nv = newdesc@;
        match self.current_list {
            EntityList::Functions => {
                let mut item = self.functions.remove(item_index);
                let ghost iv = item@;
                let mut parameter = item.parameters.remove(param_index);
                let ghost pv = parameter@;
                parameter.description = newdesc;
                item.parameters.insert(param_index, parameter);
                proof {
                    assert(item@.parameters =~= iv.parameters.update(
                        param_index as int,
                        UiParameterV { description: nv, ..pv },
                    ));
                }
                self.functions.insert(item_index, item);
                proof {
                    assert(fview(*self) =~= spec_with_params_at(
                        fview(*old(self)),
                        item_index as int,
                        iv.parameters.update(
                            param_index as int,
                            UiParameterV { description: nv, ..pv },
                        ),
                    ));
                }
            },
            EntityList::Events => {
                let mut item = self.events.remove(item_index);
                let ghost iv = item@;
                let mut parameter = item.parameters.remove(param_index);
                let ghost pv = parameter@;
                parameter.description = newdesc;
                item.parameters.insert(param_index, parameter);
                proof {
                    assert(item@.parameters =~= iv.parameters.update(
                        param_index as int,
                        UiParameterV { description: nv, ..pv },
                    ));
                }
                self.events.insert(item_index, item);
                proof {
                    assert(eview(*self) =~= spec_with_params_at(
                        eview(*old(self)),
                        item_index as int,
                        iv.parameters.update(
                            param_index as int,
                            UiParameterV { description: nv, ..pv },
                        ),
                    ));
                }
            },
        }
    }

    /// Removes one parameter of the shown list — of the events list, that
    /// is: while the functions list is shown this does nothing, exactly as
    /// the form has always behaved.
    pub fn remove_list_parameter(&mut self, item_index: usize, param_index: usize)
        requires
            old(self).current_list == EntityList::Events ==> item_index < eview(
                *old(self),
            ).len() && param_index < eview(*old(self))[item_index as int].parameters.len(),
        ensures
            eq_but_lists(*final(self), *old(self)),
            final(self).functions == old(self).functions,
            match old(self).current_list {
                EntityList::Functions => final(self).events == old(self).events,
                EntityList::Events => eview(*final(self)) == spec_with_params_at(
                    eview(*old(self)),
                    item_index as int,
                    eview(*old(self))[item_index as int].parameters.remove(param_index as int),
                ),
            },
    {
        match self.current_list {
            EntityList::Functions => {},
            EntityList::Events => {
                let mut item = self.events.remove(item_index);
                let ghost iv = item@;
                item.parameters.remove(param_index);
                proof {
                    assert(item@.parameters =~= iv.parameters.remove(param_index as int));
                }
                self.events.insert(item_index, item);
                proof {
                    assert(eview(*self) =~= spec_with_params_at(
                        eview(*old(self)),
                        item_index as int,
                        iv.parameters.remove(param_index as int),
                    ));
                }
            },
        }
    }

    /// Copies a parsed configuration into the form, as loading an existing
    /// descriptor file does. Paths and exporter arguments are left alone.
    pub fn apply_config(&mut self, config: XmlConfig)
        ensures
            *final(self) == (MainLayout {
                ui_elements_name: config.ui_elements_name,
                ui_element_name: config.ui_element_name,
                fullscreen: config.fullscreen,
                gfx_layer: config.gfx_layer,
                halign: Some(config.halign),
                valign: Some(config.valign),
                functions: config.functions,
                events: config.events,
                ..*old(self)
            }),
    {
        self.ui_elements_name = config.ui_elements_name;
        self.ui_element_name = config.ui_element_name;
        self.fullscreen = config.fullscreen;
        self.gfx_layer = config.gfx_layer;
        self.halign = Some(config.halign);
        self.valign = Some(config.valign);
        self.functions = config.functions;
        self.events = config.events;
    }

    /// Assembles the configuration the generation step writes out, from the
    /// form's fields and the given target file name.
    pub fn build_config(&self, gfx_file_name: Vec<u8>) -> (r: XmlConfig)
        ensures
            r@.ui_elements_name == self.ui_elements_name@,
            r@.ui_element_name == self.ui_element_name@,
            r@.gfx_file_name == gfx_file_name@,
            r@.gfx_layer == self.gfx_layer,
            r@.fullscreen == self.fullscreen,
            r@.halign == (match self.halign {
                Some(h) => h,
                None => HAlign::Center,
            }),
            r@.valign == (match self.valign {
                Some(v) => v,
                None => VAlign::Center,
            }),
            r@.functions == fview(*self),
            r@.events == eview(*self),
    {
        let r = XmlConfig {
            ui_elements_name: copy_bytes(self.ui_elements_name.as_slice()),
            ui_element_name: copy_bytes(self.ui_element_name.as_slice()),
            gfx_file_name,
            gfx_layer: self.gfx_layer,
            fullscreen: self.fullscreen,
            halign: match self.halign {
                Some(h) => h,
                None => HAlign::Center,
            },
            valign: match self.valign {
                Some(v) => v,
                None => VAlign::Center,
            },
            functions: duplicate_runnables(&self.functions),
            events: duplicate_runnables(&self.events),
        };
        r
    }
}

/// A value-equal copy of one parameter.
fn duplicate_parameter(p: &UiParameter) -> (r: UiParameter)
    ensures
        r@ == p@,
{
    UiParameter {
        name: copy_bytes(p.name.as_slice()),
        description: copy_bytes(p.description.as_slice()),
        type_: p.type_,
    }
}

/// A value-equal copy of one runnable.
fn duplicate_runnable(r: &UiRunnable) -> (out: UiRunnable)
    ensures
        out@ == r@,
{
    let mut parameters: Vec<UiParameter> = Vec::new();
    let mut i: usize = 0;
    proof {
        assert(parameters@.map_values(|p: UiParameter| p@) =~= Seq::<UiParameterV>::empty());
    }
    while i < r.parameters.len()
        invariant
            i <= r.parameters@.len(),
            parameters@.map_values(|p: UiParameter| p@) == r@.parameters.subrange(0, i as int),
        decreases r.parameters@.len() - i,
    {
        let ghost before = parameters@.map_values(|p: UiParameter| p@);
        parameters.push(duplicate_parameter(&r.parameters[i]));
        proof {
            assert(parameters@.map_values(|p: UiParameter| p@) =~= before.push(
                r@.parameters[i as int],
            ));
            assert(r@.parameters.subrange(0, i + 1) =~= before.push(r@.parameters[i as int]));
        }
        i += 1;
    }
    proof {
        assert(r@.parameters.subrange(0, r@.parameters.len() as int) =~= r@.parameters);
    }
    let out = UiRunnable { name: copy_bytes(r.name.as_slice()), parameters };
    out
}

/// A value-equal copy of a runnable list.
fn duplicate_runnables(rs: &Vec<UiRunnable>) -> (out: Vec<UiRunnable>)
    ensures
        out@.map_values(|r: UiRunnable| r@) == rs@.map_values(|r: UiRunnable| r@),
{
    let mut out: Vec<UiRunnable> = Vec::new();
    let mut i: usize = 0;
    proof {
        assert(out@.map_values(|r: UiRunnable| r@) =~= Seq::<UiRunnableV>::empty());
        assert(rs@.map_values(|r: UiRunnable| r@).subrange(0, 0) =~= Seq::<UiRunnableV>::empty());
    }
    while i < rs.len()
        invariant
            i <= rs@.len(),
            out@.map_values(|r: UiRunnable| r@) == rs@.map_values(|r: UiRunnable| r@).subrange(
                0,
                i as int,
            ),
        decreases rs@.len() - i,
    {
        let ghost before = out@.map_values(|r: UiRunnable| r@);
        out.push(duplicate_runnable(&rs[i]));
        proof {
            assert(out@.map_values(|r: UiRunnable| r@) =~= before.push(rs@[i as int]@));
            assert(rs@.map_values(|r: UiRunnable| r@).subrange(0, i + 1) =~= before.push(
                rs@[i as int]@,
            ));
        }
        i += 1;
    }
    proof {
        let full = rs@.map_values(|r: UiRunnable| r@);
        assert(full.subrange(0, full.len() as int) =~= full);
    }
    out
}


/// What an update with `m` demands of the form: the indices a list message
/// carries must point at existing entries, as the widgets guarantee.
pub open spec fn msg_wf(l: MainLayout, m: MainLayoutMessage) -> bool {
    match m {
        MainLayoutMessage::EntityListAddParameterClicked(i) => i < active_view(l).len(),
        MainLayoutMessage::EntityListItemChanged(i, _) => i < active_view(l).len(),
        MainLayoutMessage::EntityListRemoveItem(i) => i < active_view(l).len(),
        MainLayoutMessage::EntityListParameterNameChanged(i, j, _) => i < active_view(l).len()
            && j < active_view(l)[i as int].parameters.len(),
        MainLayoutMessage::EntityListParameterDescriptionChanged(i, j, _) => i < active_view(
            l,
        ).len() && j < active_view(l)[i as int].parameters.len(),
        MainLayoutMessage::EntityListParameterTypeChanged(i, j, _) => i < active_view(l).len()
            && j < active_view(l)[i as int].parameters.len(),
        MainLayoutMessage::EntityListRemoveParameter(i, j) => l.current_list
            == EntityList::Events ==> (i < eview(l).len() && j < eview(
            l,
        )[i as int].parameters.len()),
        _ => true,
    }
}

impl MainLayout {
    /// Applies one widget event to the form. Events that only move form
    /// state are applied here and answered with `Handled`; the four path
    /// pickers and the generate button leave the form untouched and hand
    /// the caller the action to perform.
    pub fn update(&mut self, message: MainLayoutMessage) -> (r: UiAction)
        requires
            msg_wf(*old(self), message),
        ensures
            match message {
                MainLayoutMessage::SelectPathToGfxExportBin => r
                    == UiAction::SelectPathToGfxExportBin && *final(self) == *old(self),
                MainLayoutMessage::SelectPathToSwfFile => r == UiAction::SelectPathToSwfFile
                    && *final(self) == *old(self),
                MainLayoutMessage::SelectPathToGfxOutput => r == UiAction::SelectPathToGfxOutput
                    && *final(self) == *old(self),
                MainLayoutMessage::SelectPathToXmlOutput => r == UiAction::SelectPathToXmlOutput
                    && *final(self) == *old(self),
                MainLayoutMessage::GenerateClicked => r == UiAction::Generate && *final(self)
                    == *old(self),
                MainLayoutMessage::ShowFunctions => r == UiAction::Handled && *final(self) == (
                MainLayout { current_list: EntityList::Functions, ..*old(self) }),
                MainLayoutMessage::ShowEvents => r == UiAction::Handled && *final(self) == (
                MainLayout { current_list: EntityList::Events, ..*old(self) }),
                MainLayoutMessage::FullscreenChanged(b) => r == UiAction::Handled && *final(self)
                    == (MainLayout { fullscreen: b, ..*old(self) }),
                MainLayoutMessage::HorizontalAlignChanged(h) => r == UiAction::Handled && *final(self) == (MainLayout { halign: Some(h), ..*old(self) }),
                MainLayoutMessage::VerticalAlignChanged(v) => r == UiAction::Handled && *final(self) == (MainLayout { valign: Some(v), ..*old(self) }),
                MainLayoutMessage::AdditionalGfxExportArgsChanged(args) => r == UiAction::Handled
                    && *final(self) == (MainLayout {
                    additional_gfxexport_args: args,
                    ..*old(self)
                }),
                MainLayoutMessage::UiElementsTextChanged(n) => r == UiAction::Handled && *final(self) == (MainLayout { ui_elements_name: n, ..*old(self) }),
                MainLayoutMessage::UiElementTextChanged(n) => r == UiAction::Handled && *final(self) == (MainLayout { ui_element_name: n, ..*old(self) }),
                MainLayoutMessage::GfxLayerTextChanged(t) => r == UiAction::Handled && (
                match spec_parse_usize(t@) {
                    Some(n) => *final(self) == (MainLayout { gfx_layer: n, ..*old(self) }),
                    None => *final(self) == *old(self),
                }),
                MainLayoutMessage::EntityListAddClicked => r == UiAction::Handled && eq_but_lists(
                    *final(self),
                    *old(self),
                ) && active_view(*final(self)) == active_view(*old(self)).push(
                    UiRunnableV {
                        name: match old(self).current_list {
                            EntityList::Functions => T_FUNCTION_NAME@,
                            EntityList::Events => T_EVENT_NAME@,
                        },
                        parameters: Seq::empty(),
                    },
                ),
                MainLayoutMessage::EntityListItemChanged(i, n) => r == UiAction::Handled
                    && eq_but_lists(*final(self), *old(self)) && active_view(*final(self))
                    == spec_rename_at(active_view(*old(self)), i as int, n@),
                MainLayoutMessage::EntityListRemoveItem(i) => r == UiAction::Handled
                    && eq_but_lists(*final(self), *old(self)) && active_view(*final(self))
                    == active_view(*old(self)).remove(i as int),
                MainLayoutMessage::EntityListAddParameterClicked(i) => r == UiAction::Handled
                    && eq_but_lists(*final(self), *old(self)) && active_view(*final(self))
                    == spec_with_params_at(
                    active_view(*old(self)),
                    i as int,
                    active_view(*old(self))[i as int].parameters.push(
                        UiParameterV {
                            name: T_PARAMETER_NAME@,
                            description: T_PARAMETER_DESCRIPTION@,
                            type_: Some(ParameterType::Any),
                        },
                    ),
                ),
                MainLayoutMessage::EntityListParameterNameChanged(i, j, n) => r
                    == UiAction::Handled && eq_but_lists(*final(self), *old(self)) && active_view(
                    *final(self),
                ) == spec_with_params_at(
                    active_view(*old(self)),
                    i as int,
                    active_view(*old(self))[i as int].parameters.update(
                        j as int,
                        UiParameterV {
                            name: n@,
                            ..active_view(*old(self))[i as int].parameters[j as int]
                        },
                    ),
                ),
                MainLayoutMessage::EntityListParameterDescriptionChanged(i, j, d) => r
                    == UiAction::Handled && eq_but_lists(*final(self), *old(self)) && active_view(
                    *final(self),
                ) == spec_with_params_at(
                    active_view(*old(self)),
                    i as int,
                    active_view(*old(self))[i as int].parameters.update(
                        j as int,
                        UiParameterV {
                            description: d@,
                            ..active_view(*old(self))[i as int].parameters[j as int]
                        },
                    ),
                ),
                MainLayoutMessage::EntityListParameterTypeChanged(i, j, t) => r
                    == UiAction::Handled && eq_but_lists(*final(self), *old(self)) && active_view(
                    *final(self),
                ) == spec_with_params_at(
                    active_view(*old(self)),
                    i as int,
                    active_view(*old(self))[i as int].parameters.update(
                        j as int,
                        UiParameterV {
                            type_: Some(t),
                            ..active_view(*old(self))[i as int].parameters[j as int]
                        },
                    ),
                ),
                MainLayoutMessage::EntityListRemoveParameter(i, j) => r == UiAction::Handled
                    && eq_but_lists(*final(self), *old(self)) && final(self).functions == old(self).functions && (match old(self).current_list {
                    EntityList::Functions => final(self).events == old(self).events,
                    EntityList::Events => eview(*final(self)) == spec_with_params_at(
                        eview(*old(self)),
                        i as int,
                        eview(*old(self))[i as int].parameters.remove(j as int),
                    ),
                }),
            },
    {
        match message {
            MainLayoutMessage::SelectPathToGfxExportBin => UiAction::SelectPathToGfxExportBin,
            MainLayoutMessage::SelectPathToSwfFile => UiAction::SelectPathToSwfFile,
            MainLayoutMessage::SelectPathToGfxOutput => UiAction::SelectPathToGfxOutput,
            MainLayoutMessage::SelectPathToXmlOutput => UiAction::SelectPathToXmlOutput,
            MainLayoutMessage::GenerateClicked => UiAction::Generate,
            MainLayoutMessage::ShowFunctions => {
                self.show_functions();
                UiAction::Handled
            },
            MainLayoutMessage::ShowEvents => {
                self.show_events();
                UiAction::Handled
            },
            MainLayoutMessage::FullscreenChanged(b) => {
                self.update_fullscreen(b);
                UiAction::Handled
            },
            MainLayoutMessage::HorizontalAlignChanged(h) => {
                self.update_horizontal_align(h);
                UiAction::Handled
            },
            MainLayoutMessage::VerticalAlignChanged(v) => {
                self.update_vertical_align(v);
                UiAction::Handled
            },
            MainLayoutMessage::AdditionalGfxExportArgsChanged(args) => {
                self.update_additional_gfxexport_args(args);
                UiAction::Handled
            },
            MainLayoutMessage::UiElementsTextChanged(n) => {
                self.update_ui_elements_name(n);
                UiAction::Handled
            },
            MainLayoutMessage::UiElementTextChanged(n) => {
                self.update_ui_element_name(n);
                UiAction::Handled
            },
            MainLayoutMessage::GfxLayerTextChanged(t) => {
                self.update_gfx_layer(t.as_slice());
                UiAction::Handled
            },
            MainLayoutMessage::EntityListAddClicked => {
                self.add_list_item();
                UiAction::Handled
            },
            MainLayoutMessage::EntityListItemChanged(i, n) => {
                self.update_list_item(i, n);
                UiAction::Handled
            },
            MainLayoutMessage::EntityListRemoveItem(i) => {
                self.remove_list_item(i);
                UiAction::Handled
            },
            MainLayoutMessage::EntityListAddParameterClicked(i) => {
                self.add_list_item_parameter(i);
                UiAction::Handled
            },
            MainLayoutMessage::EntityListParameterNameChanged(i, j, n) => {
                self.update_list_parameter_name(i, j, n);
                UiAction::Handled
            },
            MainLayoutMessage::EntityListParameterDescriptionChanged(i, j, d) => {
                self.update_list_parameter_description(i, j, d);
                UiAction::Handled
            },
            MainLayoutMessage::EntityListParameterTypeChanged(i, j, t) => {
                self.update_list_parameter_type(i, j, t);
                UiAction::Handled
            },
            MainLayoutMessage::EntityListRemoveParameter(i, j) => {
                self.remove_list_parameter(i, j);
                UiAction::Handled
            },
        }
    }
}

} // verus!
