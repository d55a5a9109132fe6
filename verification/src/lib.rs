//! Verified codec for the CRYENGINE UI element descriptor format.
//!
//! The library models a UI element description (functions, events, typed
//! parameters, alignment, render layer) and translates it to and from the
//! XML dialect consumed by the CRYENGINE GFx toolchain.

pub mod app_state;
pub mod bytes_util;
pub mod escape;
pub mod laws;
pub mod layout;
pub mod model;
pub mod numbers;
pub mod reader;
pub mod roundtrip;
pub mod scan;
pub mod scan_of_write;
pub mod tokens;
pub mod writer;
