//! File names and previews.
use vstd::prelude::*;
use crate::foreign::{extension_of, lowercase_of, path_extension, to_lowercase};
use crate::plugins::{ov, sv};
use crate::text::{append_str, chars_of, eq_str, lines_of, own, split_lines, string_of};

verus! {

/// File helpers.
pub struct FileUtils;

/// The extension of a path in lower case.
pub open spec fn lower_extension(path: Seq<char>) -> Option<Seq<char>> {
    match extension_of(path) {
        Some(e) => Some(lowercase_of(e)),
        None => None,
    }
}

/// The file types the application reads.
pub open spec fn is_log_extension(e: Seq<char>) -> bool {
    e == "log"@ || e == "txt"@
}

impl FileUtils {
    /// The extension of the path, in lower case.
    pub fn get_file_extension(file_path: &str) -> (r: Option<String>)
        ensures
            ov(r) == lower_extension(file_path@),
    {
        match path_extension(file_path) {
            Some(e) => Some(to_lowercase(e.as_str())),
            None => None,
        }
    }

    /// Accepts `.log` and `.txt` files (ignoring case).
    pub fn validate_file_type(file_path: &str) -> (r: Result<(), String>)
        ensures
            match lower_extension(file_path@) {
                Some(e) => if is_log_extension(e) {
                    r is Ok
                } else {
                    r matches Err(m) && m@ == "不支持的文件类型: "@ + e
                },
                None => r matches Err(m) && m@ == "文件没有扩展名"@,
            },
    {
        match Self::get_file_extension(file_path) {
            Some(e) => {
                let ec = chars_of(e.as_str());
                if eq_str(&ec, "log") || eq_str(&ec, "txt") {
                    Ok(())
                } else {
                    let mut m = chars_of("不支持的文件类型: ");
                    append_str(&mut m, e.as_str());
                    Err(string_of(&m))
                }
            },
            None => Err(own("文件没有扩展名")),
        }
    }

    /// The first `lines` lines of a text.
    pub fn preview_lines(content: &str, lines: usize) -> (r: Vec<String>)
        ensures
            sv(r@) == lines_of(content@).take(if lines < lines_of(content@).len() {
                lines as int
            } else {
                lines_of(content@).len() as int
            }),
    {
        let c = chars_of(content);
        let ls = split_lines(&c);
        let n = if lines < ls.len() {
            lines
        } else {
            ls.len()
        };
        let mut r: Vec<String> = Vec::new();
        let mut i: usize = 0;
        while i < n
            invariant
                i <= n <= ls@.len(),
                ls@.len() == lines_of(c@).len(),
                forall|k: int| 0 <= k < ls@.len() ==> #[trigger] ls@[k]@ == lines_of(c@)[k],
                sv(r@) == lines_of(c@).take(i as int),
            decreases n - i,
        {
            let ghost prev = r@;
            let s = string_of(&ls[i]);
            r.push(s);
            assert(ls@[i as int]@ == lines_of(c@)[i as int]);
            assert(sv(r@) =~= sv(prev).push(s@));
            assert(sv(r@) =~= lines_of(c@).take(i as int + 1));
            i = i + 1;
        }
        r
    }
}

} // verus!
