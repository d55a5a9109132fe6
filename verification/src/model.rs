//! The in-memory description of a UI element: its name, alignment, render
//! layer, and the functions and events it exposes, each with an ordered list
//! of typed parameters.

use vstd::prelude::*;

use crate::bytes_util::{bytes_eq, push_bytes, spec_to_lower, to_lower};
use crate::tokens::{
    T_ANY, T_BOOL, T_BOTTOM, T_CENTER, T_FLOAT, T_INT, T_LEFT, T_RIGHT, T_STRING, T_TOP,
};

verus! {

/// Vertical anchoring of the element on screen.
#[derive(Clone, Copy, Debug, PartialEq, Eq, Structural)]
pub enum VAlign {
    Top,
    Center,
    Bottom,
}

/// Horizontal anchoring of the element on screen.
#[derive(Clone, Copy, Debug, PartialEq, Eq, Structural)]
pub enum HAlign {
    Left,
    Center,
    Right,
}

/// Declared type of a runnable's parameter. `Any` is the absence of a
/// declared type and is never written to the wire.
#[derive(Clone, Copy, Debug, PartialEq, Eq, Structural)]
pub enum ParameterType {
    Any,
    Int,
    Bool,
    String,
    Float,
}

impl Default for VAlign {
    fn default() -> (r: Self)
        ensures
            r == VAlign::Center,
    {
        VAlign::Center
    }
}

impl Default for HAlign {
    fn default() -> (r: Self)
        ensures
            r == HAlign::Center,
    {
        HAlign::Center
    }
}

impl Default for ParameterType {
    fn default() -> (r: Self)
        ensures
            r == ParameterType::Any,
    {
        ParameterType::Any
    }
}

impl VAlign {
    /// Canonical lowercase wire form.
    pub open spec fn spec_text(self) -> Seq<u8> {
        match self {
            VAlign::Top => T_TOP@,
            VAlign::Center => T_CENTER@,
            VAlign::Bottom => T_BOTTOM@,
        }
    }

    /// Appends the canonical lowercase wire form to `out`.
    pub fn push_text(&self, out: &mut Vec<u8>)
        ensures
            final(out)@ == old(out)@ + self.spec_text(),
    {
        match self {
            VAlign::Top => push_bytes(out, &T_TOP),
            VAlign::Center => push_bytes(out, &T_CENTER),
            VAlign::Bottom => push_bytes(out, &T_BOTTOM),
        }
    }

    /// The alignment named by `value`, compared case-insensitively; an
    /// unrecognized value keeps `prior`.
    pub open spec fn spec_update(prior: VAlign, value: Seq<u8>) -> VAlign {
        let lower = spec_to_lower(value);
        if lower == T_TOP@ {
            VAlign::Top
        } else if lower == T_CENTER@ {
            VAlign::Center
        } else if lower == T_BOTTOM@ {
            VAlign::Bottom
        } else {
            prior
        }
    }

    /// Maps an attribute value to the alignment it names, case-insensitively;
    /// an unrecognized value keeps `prior`.
    pub fn update(prior: VAlign, value: &[u8]) -> (r: VAlign)
        ensures
            r == VAlign::spec_update(prior, value@),
    {
        let lower = to_lower(value);
        if bytes_eq(&lower, &T_TOP) {
            VAlign::Top
        } else if bytes_eq(&lower, &T_CENTER) {
            VAlign::Center
        } else if bytes_eq(&lower, &T_BOTTOM) {
            VAlign::Bottom
        } else {
            prior
        }
    }
}

impl HAlign {
    /// Canonical lowercase wire form.
    pub open spec fn spec_text(self) -> Seq<u8> {
        match self {
            HAlign::Left => T_LEFT@,
            HAlign::Center => T_CENTER@,
            HAlign::Right => T_RIGHT@,
        }
    }

    /// Appends the canonical lowercase wire form to `out`.
    pub fn push_text(&self, out: &mut Vec<u8>)
        ensures
            final(out)@ == old(out)@ + self.spec_text(),
    {
        match self {
            HAlign::Left => push_bytes(out, &T_LEFT),
            HAlign::Center => push_bytes(out, &T_CENTER),
            HAlign::Right => push_bytes(out, &T_RIGHT),
        }
    }

    /// The alignment named by `value`, compared case-insensitively; an
    /// unrecognized value keeps `prior`.
    pub open spec fn spec_update(prior: HAlign, value: Seq<u8>) -> HAlign {
        let lower = spec_to_lower(value);
        if lower == T_LEFT@ {
            HAlign::Left
        } else if lower == T_CENTER@ {
            HAlign::Center
        } else if lower == T_RIGHT@ {
            HAlign::Right
        } else {
            prior
        }
    }

    /// Maps an attribute value to the alignment it names, case-insensitively;
    /// an unrecognized value keeps `prior`.
    pub fn update(prior: HAlign, value: &[u8]) -> (r: HAlign)
        ensures
            r == HAlign::spec_update(prior, value@),
    {
        let lower = to_lower(value);
        if bytes_eq(&lower, &T_LEFT) {
            HAlign::Left
        } else if bytes_eq(&lower, &T_CENTER) {
            HAlign::Center
        } else if bytes_eq(&lower, &T_RIGHT) {
            HAlign::Right
        } else {
            prior
        }
    }
}

impl ParameterType {
    /// Lowercase wire form; `Any` reads as "any" for display purposes but is
    /// omitted from the wire.
    pub open spec fn spec_text(self) -> Seq<u8> {
        match self {
            ParameterType::Any => T_ANY@,
            ParameterType::Int => T_INT@,
            ParameterType::Bool => T_BOOL@,
            ParameterType::String => T_STRING@,
            ParameterType::Float => T_FLOAT@,
        }
    }

    /// Appends the lowercase wire form to `out`.
    pub fn push_text(&self, out: &mut Vec<u8>)
        ensures
            final(out)@ == old(out)@ + self.spec_text(),
    {
        match self {
            ParameterType::Any => push_bytes(out, &T_ANY),
            ParameterType::Int => push_bytes(out, &T_INT),
            ParameterType::Bool => push_bytes(out, &T_BOOL),
            ParameterType::String => push_bytes(out, &T_STRING),
            ParameterType::Float => push_bytes(out, &T_FLOAT),
        }
    }

    /// The type named by `value`, compared case-insensitively; an
    /// unrecognized value (including "any") reads as `Any`.
    pub open spec fn spec_of_text(value: Seq<u8>) -> ParameterType {
        let lower = spec_to_lower(value);
        if lower == T_INT@ {
            ParameterType::Int
        } else if lower == T_BOOL@ {
            ParameterType::Bool
        } else if lower == T_STRING@ {
            ParameterType::String
        } else if lower == T_FLOAT@ {
            ParameterType::Float
        } else {
            ParameterType::Any
        }
    }

    /// Maps an attribute value to the type it names, case-insensitively; an
    /// unrecognized value reads as `Any`.
    pub fn of_text(value: &[u8]) -> (r: ParameterType)
        ensures
            r == ParameterType::spec_of_text(value@),
    {
        let lower = to_lower(value);
        if bytes_eq(&lower, &T_INT) {
            ParameterType::Int
        } else if bytes_eq(&lower, &T_BOOL) {
            ParameterType::Bool
        } else if bytes_eq(&lower, &T_STRING) {
            ParameterType::String
        } else if bytes_eq(&lower, &T_FLOAT) {
            ParameterType::Float
        } else {
            ParameterType::Any
        }
    }
}

/// One parameter of a function or event. Text is carried as UTF-8 bytes,
/// exactly as it stands on the wire after entity unescaping.
#[derive(Clone, Debug)]
pub struct UiParameter {
    pub name: Vec<u8>,
    pub description: Vec<u8>,
    pub type_: Option<ParameterType>,  // `type` is a keyword
}

/// Mathematical image of `UiParameter`.
pub struct UiParameterV {
    pub name: Seq<u8>,
    pub description: Seq<u8>,
    pub type_: Option<ParameterType>,
}

impl View for UiParameter {
    type V = UiParameterV;

    open spec fn view(&self) -> UiParameterV {
        UiParameterV { name: self.name@, description: self.description@, type_: self.type_ }
    }
}

impl UiParameterV {
    /// A parameter as the reader produces it: the declared type is always
    /// present (`Any` when the attribute was absent).
    pub open spec fn wf(self) -> bool {
        self.type_ is Some
    }
}

impl Default for UiParameter {
    fn default() -> (r: Self)
        ensures
            r@.name == Seq::<u8>::empty(),
            r@.description == Seq::<u8>::empty(),
            r@.type_ is None,
    {
        UiParameter { name: Vec::new(), description: Vec::new(), type_: None }
    }
}

/// A function or an event exposed by the UI element.
#[derive(Clone, Debug)]
pub struct UiRunnable {
    pub name: Vec<u8>,
    pub parameters: Vec<UiParameter>,
}

/// Mathematical image of `UiRunnable`.
pub struct UiRunnableV {
    pub name: Seq<u8>,
    pub parameters: Seq<UiParameterV>,
}

impl View for UiRunnable {
    type V = UiRunnableV;

    open spec fn view(&self) -> UiRunnableV {
        UiRunnableV {
            name: self.name@,
            parameters: self.parameters@.map_values(|p: UiParameter| p@),
        }
    }
}

impl UiRunnableV {
    /// A runnable as the reader produces it.
    pub open spec fn wf(self) -> bool {
        forall|i: int| 0 <= i < self.parameters.len() ==> (#[trigger] self.parameters[i]).wf()
    }
}

impl Default for UiRunnable {
    fn default() -> (r: Self)
        ensures
            r@.name == Seq::<u8>::empty(),
            r@.parameters == Seq::<UiParameterV>::empty(),
    {
        let r = UiRunnable { name: Vec::new(), parameters: Vec::new() };
        proof {
            assert(r@.parameters =~= Seq::<UiParameterV>::empty());
        }
        r
    }
}

/// Everything one descriptor file says about a UI element. `gfx_file_name`
/// is write-only: the writer emits it, the reader leaves it empty.
#[derive(Clone, Debug)]
pub struct XmlConfig {
    pub ui_elements_name: Vec<u8>,
    pub ui_element_name: Vec<u8>,
    pub gfx_file_name: Vec<u8>,
    pub gfx_layer: usize,
    pub fullscreen: bool,
    pub halign: HAlign,
    pub valign: VAlign,
    pub functions: Vec<UiRunnable>,
    pub events: Vec<UiRunnable>,
}

/// Mathematical image of `XmlConfig`.
pub struct XmlConfigV {
    pub ui_elements_name: Seq<u8>,
    pub ui_element_name: Seq<u8>,
    pub gfx_file_name: Seq<u8>,
    pub gfx_layer: usize,
    pub fullscreen: bool,
    pub halign: HAlign,
    pub valign: VAlign,
    pub functions: Seq<UiRunnableV>,
    pub events: Seq<UiRunnableV>,
}

impl View for XmlConfig {
    type V = XmlConfigV;

    open spec fn view(&self) -> XmlConfigV {
        XmlConfigV {
            ui_elements_name: self.ui_elements_name@,
            ui_element_name: self.ui_element_name@,
            gfx_file_name: self.gfx_file_name@,
            gfx_layer: self.gfx_layer,
            fullscreen: self.fullscreen,
            halign: self.halign,
            valign: self.valign,
            functions: self.functions@.map_values(|r: UiRunnable| r@),
            events: self.events@.map_values(|r: UiRunnable| r@),
        }
    }
}

impl XmlConfigV {
    /// A configuration as the reader produces it: every parameter carries a
    /// declared type.
    pub open spec fn wf(self) -> bool {
        &&& forall|i: int|
            0 <= i < self.functions.len() ==> (#[trigger] self.functions[i]).wf()
        &&& forall|i: int| 0 <= i < self.events.len() ==> (#[trigger] self.events[i]).wf()
    }

    /// The configuration every read starts from: empty names, layer 0,
    /// windowed, centered, no runnables.
    pub open spec fn initial() -> XmlConfigV {
        XmlConfigV {
            ui_elements_name: Seq::empty(),
            ui_element_name: Seq::empty(),
            gfx_file_name: Seq::empty(),
            gfx_layer: 0,
            fullscreen: false,
            halign: HAlign::Center,
            valign: VAlign::Center,
            functions: Seq::empty(),
            events: Seq::empty(),
        }
    }
}

impl Default for XmlConfig {
    fn default() -> (r: Self)
        ensures
            r@ == XmlConfigV::initial(),
    {
        let r = XmlConfig {
            ui_elements_name: Vec::new(),
            ui_element_name: Vec::new(),
            gfx_file_name: Vec::new(),
            gfx_layer: 0,
            fullscreen: false,
            halign: HAlign::Center,
            valign: VAlign::Center,
            functions: Vec::new(),
            events: Vec::new(),
        };
        proof {
            assert(r@.functions =~= Seq::<UiRunnableV>::empty());
            assert(r@.events =~= Seq::<UiRunnableV>::empty());
        }
        r
    }
}

/// The reader and writer of the descriptor format. It holds no state:
/// each call is one whole, independent conversion.
pub struct XmlManager;

/// Which required attribute a `ParseError::MissingAttribute` names.
#[derive(Clone, Copy, Debug, PartialEq, Eq, Structural)]
pub enum AttrId {
    /// `name` on `UIElements`, `UIElement`, `function`, `event` or `param`.
    Name,
    /// `layer` on `GFx`.
    Layer,
    /// `mode` on `Align`.
    Mode,
    /// `valign` on a non-fullscreen `Align`.
    VAlignAttr,
    /// `halign` on a non-fullscreen `Align`.
    HAlignAttr,
}

/// Why a read failed. A read stops at the first error; there is no partial
/// recovery.
#[derive(Clone, Copy, Debug, PartialEq, Eq, Structural)]
pub enum ParseError {
    /// Malformed XML: a truncated or ill-formed tag, a bad entity reference,
    /// or a stray construct the scanner does not accept.
    Syntax,
    /// A tag lacks an attribute the dialect requires.
    MissingAttribute(AttrId),
    /// The `layer` attribute of `GFx` does not hold an unsigned decimal
    /// number that fits the machine word.
    InvalidLayer,
}

} // verus!
