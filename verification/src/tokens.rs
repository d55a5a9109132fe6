//! Byte constants for the tag and attribute vocabulary of the wire format.

use vstd::prelude::*;

verus! {

/// "UIElements"
pub const T_UIELEMENTS: [u8; 10] = [85, 73, 69, 108, 101, 109, 101, 110, 116, 115];

/// "UIElement"
pub const T_UIELEMENT: [u8; 9] = [85, 73, 69, 108, 101, 109, 101, 110, 116];

/// "GFx"
pub const T_GFX: [u8; 3] = [71, 70, 120];

/// "Constraints"
pub const T_CONSTRAINTS: [u8; 11] = [67, 111, 110, 115, 116, 114, 97, 105, 110, 116, 115];

/// "Align"
pub const T_ALIGN: [u8; 5] = [65, 108, 105, 103, 110];

/// "functions"
pub const T_FUNCTIONS: [u8; 9] = [102, 117, 110, 99, 116, 105, 111, 110, 115];

/// "function"
pub const T_FUNCTION: [u8; 8] = [102, 117, 110, 99, 116, 105, 111, 110];

/// "events"
pub const T_EVENTS: [u8; 6] = [101, 118, 101, 110, 116, 115];

/// "event"
pub const T_EVENT: [u8; 5] = [101, 118, 101, 110, 116];

/// "param"
pub const T_PARAM: [u8; 5] = [112, 97, 114, 97, 109];

/// "name"
pub const T_NAME: [u8; 4] = [110, 97, 109, 101];

/// "funcname"
pub const T_FUNCNAME: [u8; 8] = [102, 117, 110, 99, 110, 97, 109, 101];

/// "fscommand"
pub const T_FSCOMMAND: [u8; 9] = [102, 115, 99, 111, 109, 109, 97, 110, 100];

/// "file"
pub const T_FILE: [u8; 4] = [102, 105, 108, 101];

/// "layer"
pub const T_LAYER: [u8; 5] = [108, 97, 121, 101, 114];

/// "mode"
pub const T_MODE: [u8; 4] = [109, 111, 100, 101];

/// "valign"
pub const T_VALIGN: [u8; 6] = [118, 97, 108, 105, 103, 110];

/// "halign"
pub const T_HALIGN: [u8; 6] = [104, 97, 108, 105, 103, 110];

/// "scale"
pub const T_SCALE: [u8; 5] = [115, 99, 97, 108, 101];

/// "maximize"
pub const T_MAXIMIZE: [u8; 8] = [109, 97, 120, 105, 109, 105, 122, 101];

/// "desc"
pub const T_DESC: [u8; 4] = [100, 101, 115, 99];

/// "type"
pub const T_TYPE: [u8; 4] = [116, 121, 112, 101];

/// "fullscreen"
pub const T_FULLSCREEN: [u8; 10] = [102, 117, 108, 108, 115, 99, 114, 101, 101, 110];

/// "dynamic"
pub const T_DYNAMIC: [u8; 7] = [100, 121, 110, 97, 109, 105, 99];

/// "1"
pub const T_ONE: [u8; 1] = [49];

/// "top"
pub const T_TOP: [u8; 3] = [116, 111, 112];

/// "center"
pub const T_CENTER: [u8; 6] = [99, 101, 110, 116, 101, 114];

/// "bottom"
pub const T_BOTTOM: [u8; 6] = [98, 111, 116, 116, 111, 109];

/// "left"
pub const T_LEFT: [u8; 4] = [108, 101, 102, 116];

/// "right"
pub const T_RIGHT: [u8; 5] = [114, 105, 103, 104, 116];

/// "any"
pub const T_ANY: [u8; 3] = [97, 110, 121];

/// "int"
pub const T_INT: [u8; 3] = [105, 110, 116];

/// "bool"
pub const T_BOOL: [u8; 4] = [98, 111, 111, 108];

/// "string"
pub const T_STRING: [u8; 6] = [115, 116, 114, 105, 110, 103];

/// "float"
pub const T_FLOAT: [u8; 5] = [102, 108, 111, 97, 116];

/// "lt;"
pub const T_ENT_LT: [u8; 3] = [108, 116, 59];

/// "gt;"
pub const T_ENT_GT: [u8; 3] = [103, 116, 59];

/// "amp;"
pub const T_ENT_AMP: [u8; 4] = [97, 109, 112, 59];

/// "quot;"
pub const T_ENT_QUOT: [u8; 5] = [113, 117, 111, 116, 59];

/// "apos;"
pub const T_ENT_APOS: [u8; 5] = [97, 112, 111, 115, 59];

/// "Function name"
pub const T_FUNCTION_NAME: [u8; 13] = [70, 117, 110, 99, 116, 105, 111, 110, 32, 110, 97, 109, 101];

/// "Event name"
pub const T_EVENT_NAME: [u8; 10] = [69, 118, 101, 110, 116, 32, 110, 97, 109, 101];

/// "Parameter name"
pub const T_PARAMETER_NAME: [u8; 14] = [80, 97, 114, 97, 109, 101, 116, 101, 114, 32, 110, 97, 109, 101];

/// "Parameter description"
pub const T_PARAMETER_DESCRIPTION: [u8; 21] = [80, 97, 114, 97, 109, 101, 116, 101, 114, 32, 100, 101, 115, 99, 114, 105, 112, 116, 105, 111, 110];

} // verus!
