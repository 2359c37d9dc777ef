//! Chat-display logic of a terminal coding assistant: message segmentation,
//! inline Markdown, wrapping, conversation state, keyboard shortcuts and popups.

pub mod app_state;
pub mod behaviour_laws;
pub mod chars;
pub mod command_form;
pub mod delete_command;
pub mod file_picker;
pub mod handlers;
pub mod header;
pub mod history_selector;
pub mod history_view;
pub mod input_view;
pub mod keys;
pub mod laws;
pub mod listing_laws;
pub mod main_input;
pub mod markdown;
pub mod messages;
pub mod model_selector;
pub mod popup_views;
pub mod segments;
pub mod selection;
pub mod session;
pub mod shortcuts;
pub mod syntax;
pub mod terminal;
pub mod wrap;
