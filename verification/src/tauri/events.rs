//! Events sent to the front end.
use vstd::prelude::*;

verus! {

#[derive(Debug, Clone, Copy, PartialEq, Eq, Structural)]
pub enum ParseEventType {
    Started,
    Progress,
    Completed,
    Error,
}

#[derive(Debug, Clone, Copy, PartialEq, Eq, Structural)]
pub enum UIEventType {
    FileDropped,
    PluginChanged,
    SearchPerformed,
    SearchCleared,
    ThemeChanged,
    WindowResized,
}

#[derive(Debug, Clone, Copy, PartialEq, Eq, Structural)]
pub enum ErrorEventType {
    ParseError,
    FileError,
    PluginError,
    SystemError,
}

/// An error to show, with optional details.
#[derive(Debug, Clone)]
pub struct ErrorEvent {
    pub event_type: ErrorEventType,
    pub message: String,
    pub details: Option<String>,
}

impl ErrorEvent {
    pub fn parse_error(message: String, details: Option<String>) -> (r: ErrorEvent)
        ensures
            r == (ErrorEvent { event_type: ErrorEventType::ParseError, message, details }),
    {
        ErrorEvent { event_type: ErrorEventType::ParseError, message, details }
    }

    pub fn file_error(message: String, details: Option<String>) -> (r: ErrorEvent)
        ensures
            r == (ErrorEvent { event_type: ErrorEventType::FileError, message, details }),
    {
        ErrorEvent { event_type: ErrorEventType::FileError, message, details }
    }

    pub fn plugin_error(message: String, details: Option<String>) -> (r: ErrorEvent)
        ensures
            r == (ErrorEvent { event_type: ErrorEventType::PluginError, message, details }),
    {
        ErrorEvent { event_type: ErrorEventType::PluginError, message, details }
    }

    pub fn system_error(message: String, details: Option<String>) -> (r: ErrorEvent)
        ensures
            r == (ErrorEvent { event_type: ErrorEventType::SystemError, message, details }),
    {
        ErrorEvent { event_type: ErrorEventType::SystemError, message, details }
    }
}

} // verus!
