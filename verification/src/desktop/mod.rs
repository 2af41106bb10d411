//! The desktop shell's own rules: localized shell text, settings, the
//! transfer history, and the values and decisions that turn engine events
//! into notifications and frontend events.

pub mod clipboard;
pub mod dto;
pub mod history;
pub mod interrupted;
pub mod locale;
pub mod settings;
pub mod shell;
