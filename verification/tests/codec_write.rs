//! The writer's output, byte for byte.

use cryengine_ui_helper::model::{
    HAlign, ParameterType, UiParameter, UiRunnable, VAlign, XmlConfig, XmlManager,
};

fn v(s: &str) -> Vec<u8> {
    s.as_bytes().to_vec()
}

fn contains(haystack: &[u8], needle: &str) -> bool {
    let n = needle.as_bytes();
    if n.is_empty() {
        return true;
    }
    if haystack.len() < n.len() {
        return false;
    }
    (0..=haystack.len() - n.len()).any(|i| &haystack[i..i + n.len()] == n)
}

fn sample_config() -> XmlConfig {
    XmlConfig {
        ui_elements_name: v("HUD"),
        ui_element_name: v("MainPanel"),
        gfx_file_name: v("MainPanel.gfx"),
        gfx_layer: 3,
        fullscreen: false,
        halign: HAlign::Left,
        valign: VAlign::Top,
        functions: vec![UiRunnable {
            name: v("OnShow"),
            parameters: vec![UiParameter {
                name: v("visible"),
                description: v(""),
                type_: Some(ParameterType::Bool),
            }],
        }],
        events: vec![UiRunnable { name: v("OnClick"), parameters: Vec::new() }],
    }
}

#[test]
fn writes_whole_document_exactly() {
    let out = XmlManager::write_config(&sample_config());
    let expected = "<UIElements name=\"HUD\">\n    <UIElement name=\"MainPanel\">\n        <GFx file=\"MainPanel.gfx\" layer=\"3\">\n            <Constraints>\n                <Align mode=\"dynamic\" valign=\"top\" halign=\"left\"/>\n            </Constraints>\n        </GFx>\n        <functions>\n            <function name=\"OnShow\" funcname=\"OnShow\">\n                <param name=\"visible\" type=\"bool\"/>\n            </function>\n        </functions>\n        <events>\n            <event name=\"OnClick\" fscommand=\"OnClick\"/>\n        </events>\n    </UIElement>\n</UIElements>";
    assert_eq!(String::from_utf8(out).unwrap(), expected);
}

#[test]
fn fullscreen_writes_mode_scale_maximize_and_no_alignment() {
    let mut config = sample_config();
    config.fullscreen = true;
    let out = XmlManager::write_config(&config);
    assert!(contains(&out, "<Align mode=\"fullscreen\" scale=\"1\" maximize=\"1\"/>"));
    assert!(!contains(&out, "valign"));
    assert!(!contains(&out, "halign"));
    assert!(!contains(&out, "dynamic"));
}

#[test]
fn fullscreen_output_ignores_alignment_fields() {
    let mut a = sample_config();
    a.fullscreen = true;
    a.halign = HAlign::Left;
    a.valign = VAlign::Top;
    let mut b = sample_config();
    b.fullscreen = true;
    b.halign = HAlign::Right;
    b.valign = VAlign::Bottom;
    assert_eq!(XmlManager::write_config(&a), XmlManager::write_config(&b));
}

#[test]
fn param_with_empty_description_and_any_type_carries_name_alone() {
    let mut config = sample_config();
    config.functions[0].parameters[0] = UiParameter {
        name: v("visible"),
        description: v(""),
        type_: Some(ParameterType::Any),
    };
    let out = XmlManager::write_config(&config);
    assert!(contains(&out, "<param name=\"visible\"/>"));
    assert!(!contains(&out, "desc="));
    assert!(!contains(&out, "type="));
}

#[test]
fn param_with_int_type_writes_lowercase_int() {
    let mut config = sample_config();
    config.functions[0].parameters[0].type_ = Some(ParameterType::Int);
    let out = XmlManager::write_config(&config);
    assert!(contains(&out, "<param name=\"visible\" type=\"int\"/>"));
}

#[test]
fn param_with_description_writes_desc_attribute() {
    let mut config = sample_config();
    config.functions[0].parameters[0].description = v("whether the panel shows");
    let out = XmlManager::write_config(&config);
    assert!(contains(
        &out,
        "<param name=\"visible\" desc=\"whether the panel shows\" type=\"bool\"/>"
    ));
}

#[test]
fn empty_functions_list_omits_the_functions_tag_entirely() {
    let mut config = sample_config();
    config.functions = Vec::new();
    let out = XmlManager::write_config(&config);
    assert!(!contains(&out, "<functions"));
    assert!(!contains(&out, "</functions"));
    assert!(contains(&out, "<events>"));
}

#[test]
fn empty_events_list_omits_the_events_tag_entirely() {
    let mut config = sample_config();
    config.events = Vec::new();
    let out = XmlManager::write_config(&config);
    assert!(!contains(&out, "<events"));
    assert!(!contains(&out, "</events"));
    assert!(contains(&out, "<functions>"));
}

#[test]
fn runnable_without_parameters_is_self_closing() {
    let out = XmlManager::write_config(&sample_config());
    assert!(contains(&out, "<event name=\"OnClick\" fscommand=\"OnClick\"/>"));
    assert!(!contains(&out, "</event>"));
}

#[test]
fn runnable_with_parameters_uses_open_and_close_tags() {
    let out = XmlManager::write_config(&sample_config());
    assert!(contains(&out, "<function name=\"OnShow\" funcname=\"OnShow\">"));
    assert!(contains(&out, "</function>"));
}

#[test]
fn attribute_values_are_entity_escaped() {
    let mut config = sample_config();
    config.ui_elements_name = v("a<b>&\"c'd");
    let out = XmlManager::write_config(&config);
    assert!(contains(&out, "<UIElements name=\"a&lt;b&gt;&amp;&quot;c&apos;d\">"));
}

#[test]
fn layer_is_written_in_decimal() {
    let mut config = sample_config();
    config.gfx_layer = 40960;
    let out = XmlManager::write_config(&config);
    assert!(contains(&out, "layer=\"40960\""));
}
