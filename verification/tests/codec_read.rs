//! The reader: round trips, tolerated omissions, and every error variant.

use cryengine_ui_helper::model::{
    AttrId, HAlign, ParameterType, ParseError, UiParameter, UiRunnable, VAlign, XmlConfig,
    XmlManager,
};

fn v(s: &str) -> Vec<u8> {
    s.as_bytes().to_vec()
}

fn sample_config() -> XmlConfig {
    XmlConfig {
        ui_elements_name: v("HUD"),
        ui_element_name: v("MainPanel"),
        gfx_file_name: v("MainPanel.gfx"),
        gfx_layer: 3,
        fullscreen: false,
        halign: HAlign::Left,
        valign: VAlign::Top,
        functions: vec![UiRunnable {
            name: v("OnShow"),
            parameters: vec![UiParameter {
                name: v("visible"),
                description: v(""),
                type_: Some(ParameterType::Bool),
            }],
        }],
        events: vec![UiRunnable { name: v("OnClick"), parameters: Vec::new() }],
    }
}

fn assert_runnables_eq(actual: &[UiRunnable], expected: &[UiRunnable]) {
    assert_eq!(actual.len(), expected.len());
    for (a, e) in actual.iter().zip(expected.iter()) {
        assert_eq!(a.name, e.name);
        assert_eq!(a.parameters.len(), e.parameters.len());
        for (ap, ep) in a.parameters.iter().zip(e.parameters.iter()) {
            assert_eq!(ap.name, ep.name);
            assert_eq!(ap.description, ep.description);
            assert_eq!(ap.type_, ep.type_);
        }
    }
}

#[test]
fn read_of_write_restores_every_field_but_the_file_name() {
    let config = sample_config();
    let out = XmlManager::write_config(&config);
    let back = XmlManager::read_config(&out).unwrap();
    assert_eq!(back.ui_elements_name, config.ui_elements_name);
    assert_eq!(back.ui_element_name, config.ui_element_name);
    assert_eq!(back.gfx_file_name, Vec::<u8>::new());
    assert_eq!(back.gfx_layer, config.gfx_layer);
    assert_eq!(back.fullscreen, config.fullscreen);
    assert_eq!(back.halign, config.halign);
    assert_eq!(back.valign, config.valign);
    assert_runnables_eq(&back.functions, &config.functions);
    assert_runnables_eq(&back.events, &config.events);
}

#[test]
fn round_trip_keeps_escaped_text_exactly() {
    let mut config = sample_config();
    config.ui_element_name = v("a<b>&\"c'd");
    config.functions[0].parameters[0].description = v("uses < and > & \"quotes\"");
    let out = XmlManager::write_config(&config);
    let back = XmlManager::read_config(&out).unwrap();
    assert_eq!(back.ui_element_name, v("a<b>&\"c'd"));
    assert_eq!(back.functions[0].parameters[0].description, v("uses < and > & \"quotes\""));
}

#[test]
fn reads_the_documented_dialect() {
    let doc = "<UIElements name=\"HUD\">\n    <UIElement name=\"Panel\">\n        <GFx file=\"Panel.gfx\" layer=\"12\">\n            <Constraints>\n                <Align mode=\"dynamic\" valign=\"bottom\" halign=\"right\"/>\n            </Constraints>\n        </GFx>\n        <functions>\n            <function name=\"SetText\" funcname=\"SetText\">\n                <param name=\"text\" desc=\"shown text\" type=\"string\"/>\n                <param name=\"size\" type=\"int\"/>\n            </function>\n        </functions>\n    </UIElement>\n</UIElements>";
    let config = XmlManager::read_config(doc.as_bytes()).unwrap();
    assert_eq!(config.ui_elements_name, v("HUD"));
    assert_eq!(config.ui_element_name, v("Panel"));
    assert_eq!(config.gfx_layer, 12);
    assert!(!config.fullscreen);
    assert_eq!(config.valign, VAlign::Bottom);
    assert_eq!(config.halign, HAlign::Right);
    assert_eq!(config.functions.len(), 1);
    assert_eq!(config.functions[0].name, v("SetText"));
    assert_eq!(config.functions[0].parameters.len(), 2);
    assert_eq!(config.functions[0].parameters[0].description, v("shown text"));
    assert_eq!(config.functions[0].parameters[0].type_, Some(ParameterType::String));
    assert_eq!(config.functions[0].parameters[1].description, v(""));
    assert_eq!(config.functions[0].parameters[1].type_, Some(ParameterType::Int));
    assert_eq!(config.events.len(), 0);
}

#[test]
fn orphan_param_before_any_runnable_is_dropped_silently() {
    let doc = "<UIElements name=\"a\"><param name=\"lost\"/>\
               <function name=\"f\"/></UIElements>";
    let config = XmlManager::read_config(doc.as_bytes()).unwrap();
    assert_eq!(config.functions.len(), 1);
    assert_eq!(config.functions[0].parameters.len(), 0);
    assert_eq!(config.events.len(), 0);
}

#[test]
fn param_attaches_to_the_last_opened_runnable() {
    let doc = "<functions>\
               <function name=\"twin\"/>\
               <function name=\"twin\"><param name=\"p\"/></function>\
               </functions>";
    let config = XmlManager::read_config(doc.as_bytes()).unwrap();
    assert_eq!(config.functions.len(), 2);
    assert_eq!(config.functions[0].parameters.len(), 0);
    assert_eq!(config.functions[1].parameters.len(), 1);
}

#[test]
fn param_after_event_goes_to_the_event() {
    let doc = "<function name=\"f\"/><event name=\"e\"/><param name=\"p\" desc=\"d\"/>";
    let config = XmlManager::read_config(doc.as_bytes()).unwrap();
    assert_eq!(config.functions[0].parameters.len(), 0);
    assert_eq!(config.events[0].parameters.len(), 1);
    assert_eq!(config.events[0].parameters[0].name, v("p"));
    assert_eq!(config.events[0].parameters[0].description, v("d"));
    assert_eq!(config.events[0].parameters[0].type_, Some(ParameterType::Any));
}

#[test]
fn numeric_layer_is_validated() {
    assert_eq!(XmlManager::read_config(b"<GFx layer=\"abc\"/>").unwrap_err(), ParseError::InvalidLayer);
    let config = XmlManager::read_config(b"<GFx layer=\"12\"/>").unwrap();
    assert_eq!(config.gfx_layer, 12);
}

#[test]
fn layer_with_plus_sign_parses_as_the_machine_does() {
    let config = XmlManager::read_config(b"<GFx layer=\"+7\"/>").unwrap();
    assert_eq!(config.gfx_layer, 7);
    assert_eq!(XmlManager::read_config(b"<GFx layer=\"99999999999999999999999999\"/>").unwrap_err(), ParseError::InvalidLayer);
    assert_eq!(XmlManager::read_config(b"<GFx layer=\"\"/>").unwrap_err(), ParseError::InvalidLayer);
}

#[test]
fn alignment_parsing_is_case_insensitive() {
    let upper = XmlManager::read_config(
        b"<Align mode=\"dynamic\" valign=\"TOP\" halign=\"LeFt\"/>",
    )
    .unwrap();
    let lower = XmlManager::read_config(
        b"<Align mode=\"dynamic\" valign=\"top\" halign=\"left\"/>",
    )
    .unwrap();
    assert_eq!(upper.valign, VAlign::Top);
    assert_eq!(lower.valign, VAlign::Top);
    assert_eq!(upper.halign, HAlign::Left);
    assert_eq!(lower.halign, HAlign::Left);
}

#[test]
fn unrecognized_alignment_keeps_the_default() {
    let config = XmlManager::read_config(
        b"<Align mode=\"dynamic\" valign=\"middle\" halign=\"wide\"/>",
    )
    .unwrap();
    assert_eq!(config.valign, VAlign::Center);
    assert_eq!(config.halign, HAlign::Center);
}

#[test]
fn fullscreen_mode_needs_no_alignment_attributes() {
    let config = XmlManager::read_config(b"<Align mode=\"fullscreen\"/>").unwrap();
    assert!(config.fullscreen);
    assert_eq!(config.valign, VAlign::Center);
    assert_eq!(config.halign, HAlign::Center);
}

#[test]
fn parameter_type_parsing_is_case_insensitive_and_lenient() {
    let doc = "<function name=\"f\">\
               <param name=\"a\" type=\"BOOL\"/>\
               <param name=\"b\" type=\"Float\"/>\
               <param name=\"c\" type=\"mystery\"/>\
               </function>";
    let config = XmlManager::read_config(doc.as_bytes()).unwrap();
    let params = &config.functions[0].parameters;
    assert_eq!(params[0].type_, Some(ParameterType::Bool));
    assert_eq!(params[1].type_, Some(ParameterType::Float));
    assert_eq!(params[2].type_, Some(ParameterType::Any));
}

#[test]
fn missing_required_attributes_are_reported_by_name() {
    assert_eq!(XmlManager::read_config(b"<UIElements/>").unwrap_err(), ParseError::MissingAttribute(AttrId::Name)
    );
    assert_eq!(XmlManager::read_config(b"<GFx file=\"x\"/>").unwrap_err(), ParseError::MissingAttribute(AttrId::Layer)
    );
    assert_eq!(XmlManager::read_config(b"<Align/>").unwrap_err(), ParseError::MissingAttribute(AttrId::Mode)
    );
    assert_eq!(XmlManager::read_config(b"<Align mode=\"dynamic\"/>").unwrap_err(), ParseError::MissingAttribute(AttrId::VAlignAttr)
    );
    assert_eq!(XmlManager::read_config(b"<Align mode=\"dynamic\" valign=\"top\"/>").unwrap_err(), ParseError::MissingAttribute(AttrId::HAlignAttr)
    );
    assert_eq!(XmlManager::read_config(b"<function/>").unwrap_err(), ParseError::MissingAttribute(AttrId::Name)
    );
    assert_eq!(XmlManager::read_config(b"<function name=\"f\"><param desc=\"d\"/></function>").unwrap_err(), ParseError::MissingAttribute(AttrId::Name)
    );
}

#[test]
fn malformed_documents_are_syntax_errors() {
    assert_eq!(XmlManager::read_config(b"<UIElements name=\"x").unwrap_err(), ParseError::Syntax);
    assert_eq!(XmlManager::read_config(b"<").unwrap_err(), ParseError::Syntax);
    assert_eq!(XmlManager::read_config(b"<foo bar>").unwrap_err(), ParseError::Syntax);
    assert_eq!(XmlManager::read_config(b"<foo bar=baz>").unwrap_err(), ParseError::Syntax);
    assert_eq!(XmlManager::read_config(b"<a x=\"&unknown;\"/>").unwrap_err(), ParseError::Syntax);
    assert_eq!(XmlManager::read_config(b"<!-- never closed").unwrap_err(), ParseError::Syntax);
}

#[test]
fn unknown_tags_text_comments_and_declarations_are_ignored() {
    let doc = "<?xml version=\"1.0\"?>\n\
               <!-- a comment -->\n\
               <Mystery attr=\"1\"/> stray text\n\
               <UIElements name=\"ok\"></UIElements> trailing";
    let config = XmlManager::read_config(doc.as_bytes()).unwrap();
    assert_eq!(config.ui_elements_name, v("ok"));
}

#[test]
fn single_quoted_attributes_are_accepted() {
    let config = XmlManager::read_config(b"<UIElement name='panel'/>").unwrap();
    assert_eq!(config.ui_element_name, v("panel"));
}

#[test]
fn empty_input_reads_as_the_default_configuration() {
    let config = XmlManager::read_config(b"").unwrap();
    assert_eq!(config.ui_elements_name, Vec::<u8>::new());
    assert_eq!(config.gfx_layer, 0);
    assert!(!config.fullscreen);
    assert_eq!(config.halign, HAlign::Center);
    assert_eq!(config.valign, VAlign::Center);
    assert!(config.functions.is_empty());
    assert!(config.events.is_empty());
}
