//! The parts of the terminal interface that decide rather than draw.

pub mod json_view;
pub mod login_view;
pub mod raw_view;
pub mod result_view;
pub mod status_bar;
pub mod task_view;
pub mod tool_browser;
pub mod tool_form;
