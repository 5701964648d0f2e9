//! Requests and responses of the front-end commands, and the answers that do not
//! need the file system.
use vstd::prelude::*;
use crate::plugins::{ParseResult, ov, sv};
use crate::utils::file_utils::lower_extension;
use crate::foreign::{path_extension, to_lowercase};
use crate::text::{append_str, chars_of, eq_str, own, string_of};

verus! {

pub struct ParseFileRequest {
    pub file_path: String,
    pub plugin_name: Option<String>,
}

pub struct ParseFileResponse {
    pub success: bool,
    pub result_set: Option<ParseResult>,
    pub error: Option<String>,
}

pub struct SupportedFormatsResponse {
    pub formats: Vec<String>,
}

pub struct AvailablePluginsResponse {
    pub plugins: Vec<PluginInfo>,
}

/// A parser as the front end lists it.
pub struct PluginInfo {
    pub name: String,
    pub description: String,
    pub enabled: bool,
}

pub struct SwitchPluginRequest {
    pub plugin_name: String,
}

pub struct SwitchPluginResponse {
    pub success: bool,
    pub error: Option<String>,
}

pub struct CopyToClipboardRequest {
    pub content: String,
}

pub struct CopyToClipboardResponse {
    pub success: bool,
    pub error: Option<String>,
}

pub struct WriteLogRequest {
    pub content: String,
    pub append: bool,
}

pub struct WriteLogResponse {
    pub success: bool,
    pub error: Option<String>,
}

/// The file that a day's log is written to: `logwhisper_<day>.log`, where `day` is
/// the date as `YYYY-MM-DD`.
pub fn log_file_name(day: &str) -> (r: String)
    ensures
        r@ == "logwhisper_"@ + day@ + ".log"@,
{
    let mut v = chars_of("logwhisper_");
    append_str(&mut v, day);
    append_str(&mut v, ".log");
    string_of(&v)
}

pub struct ValidateFileRequest {
    pub file_path: String,
}

pub struct ValidateFileResponse {
    pub valid: bool,
    pub file_size: Option<usize>,
    pub file_type: Option<String>,
    pub error: Option<String>,
}

/// The description shown for a parser name.
pub open spec fn plugin_description(name: Seq<char>) -> Seq<char> {
    if name == "Auto"@ {
        "自动选择最佳插件"@
    } else if name == "MyBatis"@ {
        "MyBatis SQL 解析器"@
    } else if name == "JSON"@ {
        "JSON 修复和格式化"@
    } else if name == "Raw"@ {
        "原始文本显示"@
    } else {
        "未知插件"@
    }
}

/// The description shown for a parser name.
pub fn get_plugin_description(plugin_name: &str) -> (r: String)
    ensures
        r@ == plugin_description(plugin_name@),
{
    let c = chars_of(plugin_name);
    if eq_str(&c, "Auto") {
        own("自动选择最佳插件")
    } else if eq_str(&c, "MyBatis") {
        own("MyBatis SQL 解析器")
    } else if eq_str(&c, "JSON") {
        own("JSON 修复和格式化")
    } else if eq_str(&c, "Raw") {
        own("原始文本显示")
    } else {
        own("未知插件")
    }
}

/// The file types the application opens.
pub fn supported_formats() -> (r: SupportedFormatsResponse)
    ensures
        sv(r.formats@) == seq![".log"@, ".txt"@],
{
    let mut formats: Vec<String> = Vec::new();
    formats.push(own(".log"));
    formats.push(own(".txt"));
    assert(sv(formats@) =~= seq![".log"@, ".txt"@]);
    SupportedFormatsResponse { formats }
}

/// The listing of the given parser names, each enabled and described.
pub fn available_plugins(names: Vec<String>) -> (r: AvailablePluginsResponse)
    ensures
        r.plugins@.len() == names@.len(),
        forall|i: int| 0 <= i < names@.len() ==> {
            &&& (#[trigger] r.plugins@[i]).name@ == names@[i]@
            &&& r.plugins@[i].description@ == plugin_description(names@[i]@)
            &&& r.plugins@[i].enabled
        },
{
    let mut plugins: Vec<PluginInfo> = Vec::new();
    let mut i: usize = 0;
    while i < names.len()
        invariant
            i <= names@.len(),
            plugins@.len() == i,
            forall|k: int| 0 <= k < i ==> {
                &&& (#[trigger] plugins@[k]).name@ == names@[k]@
                &&& plugins@[k].description@ == plugin_description(names@[k]@)
                &&& plugins@[k].enabled
            },
        decreases names.len() - i,
    {
        let name = names[i].clone();
        let description = get_plugin_description(name.as_str());
        plugins.push(PluginInfo { name, description, enabled: true });
        i = i + 1;
    }
    AvailablePluginsResponse { plugins }
}

/// The answer to a change of parser, which always succeeds.
pub fn switch_plugin_response(_request: &SwitchPluginRequest) -> (r: SwitchPluginResponse)
    ensures
        r.success,
        r.error is None,
{
    SwitchPluginResponse { success: true, error: None }
}

/// The answer to a copy to the clipboard, which is switched off.
pub fn copy_to_clipboard_response(_request: &CopyToClipboardRequest) -> (r: CopyToClipboardResponse)
    ensures
        r.success,
        ov(r.error) == Some("剪贴板功能暂时禁用"@),
{
    CopyToClipboardResponse { success: true, error: Some(own("剪贴板功能暂时禁用")) }
}

/// The answer to a file check, given whether the file exists and its size (or the
/// message of the error that reading its size gave).
pub fn file_validation(file_path: &str, exists: bool, size: Result<usize, String>) -> (r: ValidateFileResponse)
    ensures
        !exists ==> !r.valid && r.file_size is None && r.file_type is None && ov(r.error) == Some("文件不存在"@),
        exists ==> match size {
            Err(e) => !r.valid && r.file_size is None && r.file_type is None && ov(r.error) == Some(
                "获取文件信息失败: "@ + e@,
            ),
            Ok(n) => r.file_size == Some(n) && ov(r.file_type) == lower_extension(file_path@) && (
            match lower_extension(file_path@) {
                Some(e) => if e == "log"@ || e == "txt"@ {
                    r.valid && r.error is None
                } else {
                    !r.valid && ov(r.error) == Some("不支持的文件类型，仅支持 .log 和 .txt 文件"@)
                },
                None => !r.valid && ov(r.error) == Some("不支持的文件类型，仅支持 .log 和 .txt 文件"@),
            }),
        },
{
    if !exists {
        return ValidateFileResponse { valid: false, file_size: None, file_type: None, error: Some(own("文件不存在")) };
    }
    match size {
        Ok(n) => {
            let file_type = match path_extension(file_path) {
                Some(e) => Some(to_lowercase(e.as_str())),
                None => None,
            };
            let ok = match &file_type {
                Some(t) => {
                    let tc = chars_of(t.as_str());
                    eq_str(&tc, "log") || eq_str(&tc, "txt")
                },
                None => false,
            };
            if !ok {
                return ValidateFileResponse {
                    valid: false,
                    file_size: Some(n),
                    file_type,
                    error: Some(own("不支持的文件类型，仅支持 .log 和 .txt 文件")),
                };
            }
            ValidateFileResponse { valid: true, file_size: Some(n), file_type, error: None }
        },
        Err(e) => {
            let mut m = chars_of("获取文件信息失败: ");
            append_str(&mut m, e.as_str());
            ValidateFileResponse { valid: false, file_size: None, file_type: None, error: Some(string_of(&m)) }
        },
    }
}

} // verus!
