//! What the interface's commands answer with, and the decisions they make
//! before any file is touched.
pub mod api_commands;
pub mod audio_commands;
pub mod dialog_commands;
pub mod queue_commands;
pub mod settings_commands;
pub mod project_commands;
pub mod translate_commands;
