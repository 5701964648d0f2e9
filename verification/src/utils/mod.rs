//! Helpers on strings, file names, encodings and resource use.
pub mod string_utils;
pub mod file_utils;
pub mod encoding_detector;
pub mod performance;
pub mod time_utils;
