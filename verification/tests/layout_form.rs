//! The editor form: its state transitions and its update dispatcher.

use cryengine_ui_helper::app_state::{ApplicationConfig, ApplicationState, Layout, Theme};
use cryengine_ui_helper::layout::{EntityList, MainLayout, MainLayoutMessage, UiAction};
use cryengine_ui_helper::model::{HAlign, ParameterType, VAlign, XmlManager};

fn v(s: &str) -> Vec<u8> {
    s.as_bytes().to_vec()
}

fn fresh() -> MainLayout {
    MainLayout::new(&ApplicationConfig {
        path_to_gfxexport_bin: String::from("/opt/gfx/GFxExport"),
        additional_gfxexport_args: String::from("-x"),
        last_used_swf_dir: String::new(),
    })
}

#[test]
fn new_form_takes_paths_from_the_config() {
    let form = fresh();
    assert_eq!(form.path_to_gfxexport_bin, "/opt/gfx/GFxExport");
    assert_eq!(form.additional_gfxexport_args, "-x");
    assert_eq!(form.current_list, EntityList::Functions);
    assert_eq!(form.halign, Some(HAlign::Center));
    assert_eq!(form.valign, Some(VAlign::Center));
    assert_eq!(form.gfx_layer, 0);
    assert!(!form.fullscreen);
    assert!(form.functions.is_empty());
    assert!(form.events.is_empty());
}

#[test]
fn required_fields_check_needs_all_six() {
    let mut form = fresh();
    assert!(!form.are_all_required_fields_filled());
    form.path_to_swf_file = String::from("menu.swf");
    form.path_to_gfx_dir = String::from("out");
    form.path_to_xml_dir = String::from("out/UIElements");
    form.ui_elements_name = v("Menu");
    assert!(!form.are_all_required_fields_filled());
    form.ui_element_name = v("Menu");
    assert!(form.are_all_required_fields_filled());
    form.path_to_gfxexport_bin = String::new();
    assert!(!form.are_all_required_fields_filled());
}

#[test]
fn items_are_added_renamed_and_removed_in_the_shown_list() {
    let mut form = fresh();
    form.update(MainLayoutMessage::EntityListAddClicked);
    assert_eq!(form.functions.len(), 1);
    assert_eq!(form.functions[0].name, v("Function name"));
    form.update(MainLayoutMessage::EntityListItemChanged(0, v("OnShow")));
    assert_eq!(form.functions[0].name, v("OnShow"));

    form.update(MainLayoutMessage::ShowEvents);
    assert_eq!(form.current_list, EntityList::Events);
    form.update(MainLayoutMessage::EntityListAddClicked);
    assert_eq!(form.events.len(), 1);
    assert_eq!(form.events[0].name, v("Event name"));
    assert_eq!(form.functions.len(), 1);

    form.update(MainLayoutMessage::EntityListRemoveItem(0));
    assert!(form.events.is_empty());
    assert_eq!(form.functions.len(), 1);
}

#[test]
fn parameters_are_edited_through_the_dispatcher() {
    let mut form = fresh();
    form.update(MainLayoutMessage::EntityListAddClicked);
    form.update(MainLayoutMessage::EntityListAddParameterClicked(0));
    assert_eq!(form.functions[0].parameters.len(), 1);
    assert_eq!(form.functions[0].parameters[0].name, v("Parameter name"));
    assert_eq!(form.functions[0].parameters[0].description, v("Parameter description"));
    assert_eq!(form.functions[0].parameters[0].type_, Some(ParameterType::Any));

    form.update(MainLayoutMessage::EntityListParameterNameChanged(0, 0, v("visible")));
    form.update(MainLayoutMessage::EntityListParameterDescriptionChanged(0, 0, v("shown")));
    form.update(MainLayoutMessage::EntityListParameterTypeChanged(0, 0, ParameterType::Bool));
    assert_eq!(form.functions[0].parameters[0].name, v("visible"));
    assert_eq!(form.functions[0].parameters[0].description, v("shown"));
    assert_eq!(form.functions[0].parameters[0].type_, Some(ParameterType::Bool));
}

#[test]
fn removing_a_parameter_only_works_on_the_events_list() {
    let mut form = fresh();
    form.update(MainLayoutMessage::EntityListAddClicked);
    form.update(MainLayoutMessage::EntityListAddParameterClicked(0));
    // while the functions list is shown, removal does nothing
    form.update(MainLayoutMessage::EntityListRemoveParameter(0, 0));
    assert_eq!(form.functions[0].parameters.len(), 1);

    form.update(MainLayoutMessage::ShowEvents);
    form.update(MainLayoutMessage::EntityListAddClicked);
    form.update(MainLayoutMessage::EntityListAddParameterClicked(0));
    assert_eq!(form.events[0].parameters.len(), 1);
    form.update(MainLayoutMessage::EntityListRemoveParameter(0, 0));
    assert!(form.events[0].parameters.is_empty());
}

#[test]
fn layer_text_is_parsed_and_bad_text_is_kept_out() {
    let mut form = fresh();
    form.update(MainLayoutMessage::GfxLayerTextChanged(v("42")));
    assert_eq!(form.gfx_layer, 42);
    form.update(MainLayoutMessage::GfxLayerTextChanged(v("nonsense")));
    assert_eq!(form.gfx_layer, 42);
    form.update(MainLayoutMessage::GfxLayerTextChanged(v("+7")));
    assert_eq!(form.gfx_layer, 7);
}

#[test]
fn path_pickers_and_generate_are_handed_back_as_actions() {
    let mut form = fresh();
    assert_eq!(
        form.update(MainLayoutMessage::SelectPathToGfxExportBin),
        UiAction::SelectPathToGfxExportBin
    );
    assert_eq!(
        form.update(MainLayoutMessage::SelectPathToSwfFile),
        UiAction::SelectPathToSwfFile
    );
    assert_eq!(
        form.update(MainLayoutMessage::SelectPathToGfxOutput),
        UiAction::SelectPathToGfxOutput
    );
    assert_eq!(
        form.update(MainLayoutMessage::SelectPathToXmlOutput),
        UiAction::SelectPathToXmlOutput
    );
    assert_eq!(form.update(MainLayoutMessage::GenerateClicked), UiAction::Generate);
    assert_eq!(
        form.update(MainLayoutMessage::FullscreenChanged(true)),
        UiAction::Handled
    );
    assert!(form.fullscreen);
}

#[test]
fn alignment_and_names_flow_through_the_dispatcher() {
    let mut form = fresh();
    form.update(MainLayoutMessage::UiElementsTextChanged(v("HUD")));
    form.update(MainLayoutMessage::UiElementTextChanged(v("Panel")));
    form.update(MainLayoutMessage::HorizontalAlignChanged(HAlign::Right));
    form.update(MainLayoutMessage::VerticalAlignChanged(VAlign::Bottom));
    form.update(MainLayoutMessage::AdditionalGfxExportArgsChanged(String::from("-d out")));
    assert_eq!(form.ui_elements_name, v("HUD"));
    assert_eq!(form.ui_element_name, v("Panel"));
    assert_eq!(form.halign, Some(HAlign::Right));
    assert_eq!(form.valign, Some(VAlign::Bottom));
    assert_eq!(form.additional_gfxexport_args, "-d out");
}

#[test]
fn build_config_then_write_then_apply_config_round_trips_the_form() {
    let mut form = fresh();
    form.update(MainLayoutMessage::UiElementsTextChanged(v("HUD")));
    form.update(MainLayoutMessage::UiElementTextChanged(v("Panel")));
    form.update(MainLayoutMessage::GfxLayerTextChanged(v("5")));
    form.update(MainLayoutMessage::HorizontalAlignChanged(HAlign::Left));
    form.update(MainLayoutMessage::EntityListAddClicked);
    form.update(MainLayoutMessage::EntityListItemChanged(0, v("OnShow")));
    form.update(MainLayoutMessage::EntityListAddParameterClicked(0));
    form.update(MainLayoutMessage::EntityListParameterTypeChanged(0, 0, ParameterType::Int));

    let config = form.build_config(v("Panel.gfx"));
    assert_eq!(config.gfx_file_name, v("Panel.gfx"));
    let bytes = XmlManager::write_config(&config);
    let parsed = XmlManager::read_config(&bytes).unwrap();

    let mut other = fresh();
    other.apply_config(parsed);
    assert_eq!(other.ui_elements_name, v("HUD"));
    assert_eq!(other.ui_element_name, v("Panel"));
    assert_eq!(other.gfx_layer, 5);
    assert_eq!(other.halign, Some(HAlign::Left));
    assert_eq!(other.valign, Some(VAlign::Center));
    assert_eq!(other.functions.len(), 1);
    assert_eq!(other.functions[0].name, v("OnShow"));
    assert_eq!(other.functions[0].parameters[0].type_, Some(ParameterType::Int));
}

#[test]
fn application_state_starts_on_the_main_layout() {
    let state = ApplicationState::new(ApplicationConfig {
        path_to_gfxexport_bin: String::from("bin"),
        additional_gfxexport_args: String::new(),
        last_used_swf_dir: String::new(),
    });
    assert_eq!(state.current_layout, Layout::Main);
    assert_eq!(state.theme(), Theme::DarkOrange);
    assert_eq!(state.main_layout.path_to_gfxexport_bin, "bin");
    assert_eq!(state.app_config.path_to_gfxexport_bin, "bin");
}
