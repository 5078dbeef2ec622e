//! Workspace navigation for a terminal multiplexer: the workspace switcher, the
//! workspace picker and copy-mode EasyMotion, as verified state machines.

pub mod actions;
pub mod ansi;
pub mod collections;
pub mod copy_mode;
pub mod draw;
pub mod easymotion;
pub mod easymotion_laws;
pub mod easymotion_session;
pub mod geometry;
pub mod input;
pub mod key_laws;
pub mod matching;
pub mod matching_laws;
pub mod navigation;
pub mod path_laws;
pub mod paths;
pub mod picker;
pub mod picker_input;
pub mod picker_key_laws;
pub mod picker_laws;
pub mod picker_render;
pub mod picker_rows;
pub mod picker_session;
pub mod provider;
pub mod provider_laws;
pub mod row_layout;
pub mod row_laws;
pub mod rows;
pub mod sorting;
pub mod state;
pub mod style;
pub mod switcher;
pub mod switcher_input;
pub mod switcher_laws;
pub mod switcher_model;
pub mod switcher_overlay;
pub mod switcher_render;
pub mod switcher_rows;
pub mod switcher_screen;
pub mod switcher_session;
pub mod terminal;
pub mod text;
pub mod text_laws;
pub mod views;
pub mod workspace;

