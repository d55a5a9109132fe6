//! The application around the form: its persisted settings, its one layout,
//! and the top-level message type.

use vstd::prelude::*;

use crate::layout::{MainLayout, MainLayoutMessage};
use crate::model::{HAlign, VAlign};

verus! {

/// Settings the application keeps between runs. Loading and saving them is
/// the caller's business; the codec and the form only read the values.
#[derive(Debug)]
pub struct ApplicationConfig {
    pub path_to_gfxexport_bin: String,
    pub additional_gfxexport_args: String,
    pub last_used_swf_dir: String,
}

impl Default for ApplicationConfig {
    fn default() -> (r: Self)
        ensures
            r.path_to_gfxexport_bin@ == Seq::<char>::empty(),
            r.additional_gfxexport_args@ == Seq::<char>::empty(),
            r.last_used_swf_dir@ == Seq::<char>::empty(),
    {
        ApplicationConfig {
            path_to_gfxexport_bin: String::new(),
            additional_gfxexport_args: String::new(),
            last_used_swf_dir: String::new(),
        }
    }
}

/// The screens the application can show. There is one.
#[derive(Clone, Copy, Debug, PartialEq, Eq, Structural)]
pub enum Layout {
    Main,
}

/// A message from anywhere in the application.
#[derive(Clone, Debug)]
pub enum ApplicationMessage {
    MainLayoutMessage(MainLayoutMessage),
}

/// The color theme. There is one.
#[derive(Clone, Copy, Debug, PartialEq, Eq, Structural)]
pub enum Theme {
    DarkOrange,
}

impl Default for Theme {
    fn default() -> (r: Self)
        ensures
            r == Theme::DarkOrange,
    {
        Theme::DarkOrange
    }
}

/// The whole application state.
#[derive(Debug)]
pub struct ApplicationState {
    pub current_layout: Layout,
    pub main_layout: MainLayout,
    pub app_config: ApplicationConfig,
}

impl ApplicationState {
    /// A fresh application showing the main layout, its form filled from
    /// the given settings.
    pub fn new(app_config: ApplicationConfig) -> (r: Self)
        ensures
            r.current_layout == Layout::Main,
            r.main_layout.path_to_gfxexport_bin == app_config.path_to_gfxexport_bin,
            r.main_layout.additional_gfxexport_args == app_config.additional_gfxexport_args,
            r.main_layout.current_list == crate::layout::EntityList::Functions,
            r.main_layout.halign == Some(HAlign::Center),
            r.main_layout.valign == Some(VAlign::Center),
            r.main_layout.gfx_layer == 0,
            r.main_layout.fullscreen == false,
            r.app_config == app_config,
    {
        let main_layout = MainLayout::new(&app_config);
        ApplicationState { current_layout: Layout::Main, main_layout, app_config }
    }

    /// The theme to draw with.
    pub fn theme(&self) -> (r: Theme)
        ensures
            r == Theme::DarkOrange,
    {
        Theme::DarkOrange
    }
}

} // verus!
