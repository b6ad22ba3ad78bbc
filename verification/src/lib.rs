use vstd::prelude::*;

pub mod text;
pub mod mathfmt;
pub mod editor;
pub mod mermaid;
pub mod multicursor;
pub mod capture;
pub mod state;
pub mod icons;
pub mod input;
pub mod keybindings;
pub mod panel_git;
pub mod geometry;
pub mod layout;
pub mod panel_drawer;
pub mod navigation;
pub mod prompts;
pub mod panel_outline;
pub mod links_panel;
pub mod types;
pub mod clipboard;
pub mod attachments;
pub mod viewport;
pub mod which_key;
pub mod editor_keys;
pub mod logs;
pub mod list_nav;
pub mod editor_mouse;
pub mod edit_keys;
pub mod confirm;
pub mod settings_keys;
pub mod settings_fields;
pub mod theme_picker;
pub mod key_route;
pub mod batch;
pub mod insert_keys;
pub mod normal_keys;
pub mod popup_keys;
pub mod replay;

verus! {

} // verus!
