//! The checks the front-end handlers make before they emit their events.
use vstd::prelude::*;
use crate::utils::file_utils::lower_extension;
use crate::foreign::{path_extension, to_lowercase};
use crate::text::{append_str, chars_of, eq_str, own, string_of};

verus! {

pub struct FileDropHandler;

pub struct PluginChangeHandler;

pub struct SearchHandler;

pub struct ErrorHandler;

pub struct ProgressHandler;

/// A dropped file the application opens: a `.log` or `.txt` file (ignoring case).
pub open spec fn droppable(path: Seq<char>) -> bool {
    match lower_extension(path) {
        Some(e) => e == "log"@ || e == "txt"@,
        None => false,
    }
}

/// The parser names the front end may choose.
pub open spec fn known_plugin(name: Seq<char>) -> bool {
    name == "Auto"@ || name == "MyBatis"@ || name == "JSON"@ || name == "Raw"@
}

impl FileDropHandler {
    /// Whether a dropped file is opened (see `droppable`).
    pub fn is_valid_file(file_path: &str) -> (b: bool)
        ensures
            b == droppable(file_path@),
    {
        match path_extension(file_path) {
            Some(e) => {
                let l = to_lowercase(e.as_str());
                let lc = chars_of(l.as_str());
                eq_str(&lc, "log") || eq_str(&lc, "txt")
            },
            None => false,
        }
    }

    /// The check made before a dropped file is announced.
    pub fn check_file_drop(file_path: &str) -> (r: Result<(), String>)
        ensures
            droppable(file_path@) ==> r is Ok,
            !droppable(file_path@) ==> (r matches Err(m) && m@ == "不支持的文件格式"@),
    {
        if !Self::is_valid_file(file_path) {
            return Err(own("不支持的文件格式"));
        }
        Ok(())
    }
}

impl PluginChangeHandler {
    /// Whether the name is one the front end offers.
    pub fn is_valid_plugin(plugin_name: &str) -> (b: bool)
        ensures
            b == known_plugin(plugin_name@),
    {
        let c = chars_of(plugin_name);
        eq_str(&c, "Auto") || eq_str(&c, "MyBatis") || eq_str(&c, "JSON") || eq_str(&c, "Raw")
    }

    /// The check made before a change of parser is announced.
    pub fn check_plugin_change(plugin_name: &str) -> (r: Result<(), String>)
        ensures
            known_plugin(plugin_name@) ==> r is Ok,
            !known_plugin(plugin_name@) ==> (r matches Err(m) && m@ == "无效的插件名称: "@ + plugin_name@),
    {
        if !Self::is_valid_plugin(plugin_name) {
            let mut m = chars_of("无效的插件名称: ");
            append_str(&mut m, plugin_name);
            return Err(string_of(&m));
        }
        Ok(())
    }
}

} // verus!
