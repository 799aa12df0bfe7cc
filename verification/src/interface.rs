//! The retained interface: text layout, elements, and the screen that owns them.

pub mod box_drawing;
pub mod ui_action;
pub mod ui_error;
pub mod ui_element;
pub mod ui_text;
pub mod ui_viewport;
pub mod screen;
pub mod word;
