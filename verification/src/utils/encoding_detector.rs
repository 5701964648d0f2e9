//! Guessing the encoding of a log file from a sample of its first bytes.
//!
//! Confidences are counted in tenths: a byte order mark gives 10; a clean decoding
//! gives 6, plus 3 for Chinese characters (under UTF-8, GBK or GB18030), 2 for
//! mostly ASCII text under UTF-8 and 1 for a log keyword, at most 10. Text that is
//! valid UTF-8 with Chinese characters in it is thus taken for UTF-8, even where the
//! same bytes also decode cleanly as GBK.
use vstd::prelude::*;
use crate::foreign::{clean_decoding_of, decode_clean, decode_lossy, lossy_decoding_of};
use crate::text::{chars_of, contains_str, own, seq_contains};

verus! {

/// The encodings the detector tells apart.
#[derive(Debug, Clone, Copy, PartialEq, Eq, Structural)]
pub enum TextEncoding {
    Utf8,
    Gbk,
    Gb18030,
    Utf16Le,
    Utf16Be,
}

/// The usual name of an encoding.
pub open spec fn encoding_label(e: TextEncoding) -> Seq<char> {
    match e {
        TextEncoding::Utf8 => "UTF-8"@,
        TextEncoding::Gbk => "GBK"@,
        TextEncoding::Gb18030 => "GB18030"@,
        TextEncoding::Utf16Le => "UTF-16LE"@,
        TextEncoding::Utf16Be => "UTF-16BE"@,
    }
}

impl TextEncoding {
    /// The usual name of the encoding.
    pub fn label(&self) -> (r: &'static str)
        ensures
            r@ == encoding_label(*self),
    {
        match self {
            TextEncoding::Utf8 => "UTF-8",
            TextEncoding::Gbk => "GBK",
            TextEncoding::Gb18030 => "GB18030",
            TextEncoding::Utf16Le => "UTF-16LE",
            TextEncoding::Utf16Be => "UTF-16BE",
        }
    }
}

/// What the detector found: the encoding, how sure it is (in tenths) and the
/// encoding's name.
#[derive(Debug, Clone)]
pub struct EncodingResult {
    pub encoding: TextEncoding,
    pub confidence_tenths: u32,
    pub encoding_name: String,
}

/// Detects the encoding of the first `sample_size` bytes of a file.
pub struct EncodingDetector {
    sample_size: usize,
}

/// The encoding a byte order mark announces.
pub open spec fn bom_encoding(b: Seq<u8>) -> Option<TextEncoding> {
    if b.len() >= 3 && b[0] == 0xEF && b[1] == 0xBB && b[2] == 0xBF {
        Some(TextEncoding::Utf8)
    } else if b.len() >= 2 && b[0] == 0xFF && b[1] == 0xFE {
        Some(TextEncoding::Utf16Le)
    } else if b.len() >= 2 && b[0] == 0xFE && b[1] == 0xFF {
        Some(TextEncoding::Utf16Be)
    } else {
        None
    }
}

/// A character of the CJK unified ideographs or of their extension A.
pub open spec fn is_cjk(c: char) -> bool {
    (0x4E00 <= c as u32 && c as u32 <= 0x9FFF) || (0x3400 <= c as u32 && c as u32 <= 0x4DBF)
}

pub open spec fn has_cjk(s: Seq<char>) -> bool {
    exists|i: int| 0 <= i < s.len() && is_cjk(#[trigger] s[i])
}

/// How many characters of `s` are ASCII.
pub open spec fn ascii_count(s: Seq<char>) -> nat
    decreases s.len(),
{
    if s.len() == 0 {
        0
    } else {
        ascii_count(s.drop_last()) + if (s.last() as u32) < 0x80 {
            1nat
        } else {
            0nat
        }
    }
}

/// More than half of the characters are ASCII.
pub open spec fn mostly_ascii(s: Seq<char>) -> bool {
    s.len() > 0 && 2 * ascii_count(s) > s.len()
}

/// Words that mark a text as a log.
pub open spec fn log_keywords() -> Seq<Seq<char>> {
    seq![
        "INFO"@, "DEBUG"@, "WARN"@, "ERROR"@, "TRACE"@, "FATAL"@, "Exception"@, "Caused by"@, "at "@, "日志"@,
        "错误"@, "警告"@, "信息"@, "调试"@,
    ]
}

pub open spec fn has_log_keyword(s: Seq<char>) -> bool {
    exists|i: int| 0 <= i < log_keywords().len() && seq_contains(s, #[trigger] log_keywords()[i])
}

/// The bonus (in tenths) that a decoded text earns for an encoding.
pub open spec fn text_bonus(s: Seq<char>, e: TextEncoding) -> nat {
    (if (e == TextEncoding::Utf8 || e == TextEncoding::Gbk || e == TextEncoding::Gb18030) && has_cjk(s) {
        3nat
    } else {
        0nat
    }) + (if e == TextEncoding::Utf8 && mostly_ascii(s) {
        2nat
    } else {
        0nat
    }) + (if has_log_keyword(s) {
        1nat
    } else {
        0nat
    })
}

/// How sure (in tenths) the detector is that `bytes` are in encoding `e`.
pub open spec fn encoding_confidence(bytes: Seq<u8>, e: TextEncoding) -> nat {
    match clean_decoding_of(bytes, encoding_label(e)) {
        None => 0,
        Some(s) => if 6 + text_bonus(s, e) > 10 {
            10
        } else {
            6 + text_bonus(s, e)
        },
    }
}

/// The encoding chosen for a sample without a byte order mark: the first of UTF-8,
/// GBK and GB18030 with the highest confidence, or UTF-8 with 6 when that is below 5.
pub open spec fn best_guess(s: Seq<u8>) -> (TextEncoding, nat) {
    let c1 = encoding_confidence(s, TextEncoding::Utf8);
    let c2 = encoding_confidence(s, TextEncoding::Gbk);
    let c3 = encoding_confidence(s, TextEncoding::Gb18030);
    let (k2, b2) = if c2 > c1 {
        (TextEncoding::Gbk, c2)
    } else {
        (TextEncoding::Utf8, c1)
    };
    let (k3, b3) = if c3 > b2 {
        (TextEncoding::Gb18030, c3)
    } else {
        (k2, b2)
    };
    if b3 < 5 {
        (TextEncoding::Utf8, 6)
    } else {
        (k3, b3)
    }
}

/// The encoding detected for `bytes` with samples of `sample_size` bytes: UTF-8 for
/// nothing, else what a byte order mark announces, else the best guess.
pub open spec fn detected_encoding(bytes: Seq<u8>, sample_size: nat) -> (TextEncoding, nat) {
    if bytes.len() == 0 {
        (TextEncoding::Utf8, 10)
    } else {
        let s = if bytes.len() > sample_size {
            bytes.take(sample_size as int)
        } else {
            bytes
        };
        match bom_encoding(s) {
            Some(e) => (e, 10),
            None => best_guess(s),
        }
    }
}

fn result_of(encoding: TextEncoding, confidence_tenths: u32) -> (r: EncodingResult)
    ensures
        r.encoding == encoding,
        r.confidence_tenths == confidence_tenths,
        r.encoding_name@ == encoding_label(encoding),
{
    EncodingResult { encoding, confidence_tenths, encoding_name: own(encoding.label()) }
}

fn ascii_count_exec(s: &Vec<char>) -> (n: usize)
    ensures
        n == ascii_count(s@),
        n <= s@.len(),
{
    let mut n: usize = 0;
    let mut i: usize = 0;
    while i < s.len()
        invariant
            i <= s.len(),
            n <= i,
            n == ascii_count(s@.take(i as int)),
        decreases s.len() - i,
    {
        assert(s@.take(i as int + 1).drop_last() =~= s@.take(i as int));
        if (s[i] as u32) < 0x80 {
            n = n + 1;
        }
        i = i + 1;
    }
    assert(s@.take(s.len() as int) =~= s@);
    n
}

fn has_cjk_exec(s: &Vec<char>) -> (b: bool)
    ensures
        b == has_cjk(s@),
{
    let mut i: usize = 0;
    while i < s.len()
        invariant
            i <= s.len(),
            forall|k: int| 0 <= k < i ==> !is_cjk(#[trigger] s@[k]),
        decreases s.len() - i,
    {
        let code = s[i] as u32;
        if (0x4E00 <= code && code <= 0x9FFF) || (0x3400 <= code && code <= 0x4DBF) {
            assert(is_cjk(s@[i as int]));
            return true;
        }
        i = i + 1;
    }
    false
}

fn has_log_keyword_exec(s: &Vec<char>) -> (b: bool)
    ensures
        b == has_log_keyword(s@),
{
    let mut keys: Vec<&str> = Vec::new();
    keys.push("INFO");
    keys.push("DEBUG");
    keys.push("WARN");
    keys.push("ERROR");
    keys.push("TRACE");
    keys.push("FATAL");
    keys.push("Exception");
    keys.push("Caused by");
    keys.push("at ");
    keys.push("日志");
    keys.push("错误");
    keys.push("警告");
    keys.push("信息");
    keys.push("调试");
    assert(keys@.map_values(|k: &str| k@) =~= log_keywords());
    let mut i: usize = 0;
    while i < keys.len()
        invariant
            i <= keys.len(),
            keys@.map_values(|k: &str| k@) == log_keywords(),
            forall|k: int| 0 <= k < i ==> !seq_contains(s@, #[trigger] log_keywords()[k]),
        decreases keys.len() - i,
    {
        assert(log_keywords()[i as int] == keys@[i as int]@);
        if contains_str(s, keys[i]) {
            return true;
        }
        i = i + 1;
    }
    false
}

impl EncodingDetector {
    pub closed spec fn sample_size_spec(&self) -> nat {
        self.sample_size as nat
    }

    /// Samples of 8192 bytes.
    pub fn new() -> (r: EncodingDetector)
        ensures
            r.sample_size_spec() == 8192,
    {
        EncodingDetector { sample_size: 8192 }
    }

    pub fn with_sample_size(self, size: usize) -> (r: EncodingDetector)
        ensures
            r.sample_size_spec() == size,
    {
        let mut s = self;
        s.sample_size = size;
        s
    }

    pub fn sample_size(&self) -> (r: usize)
        ensures
            r == self.sample_size_spec(),
    {
        self.sample_size
    }

    /// How many of `len` bytes the detection looks at.
    pub fn sample_len(&self, len: usize) -> (r: usize)
        ensures
            r == if len > self.sample_size_spec() {
                self.sample_size_spec()
            } else {
                len as nat
            },
    {
        if len > self.sample_size {
            self.sample_size
        } else {
            len
        }
    }

    /// The encoding (with confidence 10) that a byte order mark at the start of
    /// `bytes` announces.
    pub fn check_bom(&self, bytes: &[u8]) -> (r: Option<EncodingResult>)
        ensures
            match r {
                Some(res) => bom_encoding(bytes@) == Some(res.encoding) && res.confidence_tenths == 10
                    && res.encoding_name@ == encoding_label(res.encoding),
                None => bom_encoding(bytes@) is None,
            },
    {
        let n = bytes.len();
        if n >= 3 && bytes[0] == 0xEF && bytes[1] == 0xBB && bytes[2] == 0xBF {
            return Some(result_of(TextEncoding::Utf8, 10));
        }
        if n >= 2 {
            if bytes[0] == 0xFF && bytes[1] == 0xFE {
                return Some(result_of(TextEncoding::Utf16Le, 10));
            }
            if bytes[0] == 0xFE && bytes[1] == 0xFF {
                return Some(result_of(TextEncoding::Utf16Be, 10));
            }
        }
        None
    }

    /// How sure (in tenths) the detector is that `bytes` are in `encoding`.
    pub fn calculate_encoding_confidence(&self, bytes: &[u8], encoding: TextEncoding) -> (r: u32)
        requires
            bytes@.len() <= usize::MAX / 8,
        ensures
            r == encoding_confidence(bytes@, encoding),
    {
        match decode_clean(bytes, encoding) {
            None => 0,
            Some(text) => {
                let bonus = self.analyze_text_characteristics(text.as_str(), encoding);
                if 6 + bonus > 10 {
                    10
                } else {
                    6 + bonus
                }
            },
        }
    }

    /// The bonus (in tenths) that a decoded text earns for an encoding.
    pub fn analyze_text_characteristics(&self, text: &str, encoding: TextEncoding) -> (r: u32)
        ensures
            r == text_bonus(text@, encoding),
    {
        let s = chars_of(text);
        let mut bonus: u32 = 0;
        if (encoding == TextEncoding::Utf8 || encoding == TextEncoding::Gbk || encoding == TextEncoding::Gb18030)
            && has_cjk_exec(&s) {
            bonus = bonus + 3;
        }
        let ascii = ascii_count_exec(&s);
        let total = s.len();
        if total > 0 && encoding == TextEncoding::Utf8 && ascii > total - ascii {
            bonus = bonus + 2;
        }
        if has_log_keyword_exec(&s) {
            bonus = bonus + 1;
        }
        bonus
    }

    /// The encoding of `bytes`, judged on a sample of `sample_size` bytes (see
    /// `detected_encoding`); it never fails.
    pub fn detect_encoding(&self, bytes: &[u8]) -> (r: Result<EncodingResult, String>)
        requires
            bytes@.len() <= usize::MAX / 8,
        ensures
            r matches Ok(res) && (res.encoding, res.confidence_tenths as nat) == detected_encoding(
                bytes@,
                self.sample_size_spec(),
            ) && res.encoding_name@ == encoding_label(res.encoding),
    {
        if bytes.len() == 0 {
            return Ok(result_of(TextEncoding::Utf8, 10));
        }
        let n = self.sample_len(bytes.len());
        let mut sample: Vec<u8> = Vec::new();
        let mut i: usize = 0;
        while i < n
            invariant
                i <= n,
                n <= bytes@.len(),
                sample@ == bytes@.take(i as int),
            decreases n - i,
        {
            sample.push(bytes[i]);
            i = i + 1;
            assert(sample@ =~= bytes@.take(i as int));
        }
        assert(n == bytes@.len() ==> sample@ =~= bytes@);
        if let Some(result) = self.check_bom(sample.as_slice()) {
            return Ok(result);
        }
        let c1 = self.calculate_encoding_confidence(sample.as_slice(), TextEncoding::Utf8);
        let c2 = self.calculate_encoding_confidence(sample.as_slice(), TextEncoding::Gbk);
        let c3 = self.calculate_encoding_confidence(sample.as_slice(), TextEncoding::Gb18030);
        let mut best = TextEncoding::Utf8;
        let mut conf = c1;
        if c2 > conf {
            best = TextEncoding::Gbk;
            conf = c2;
        }
        if c3 > conf {
            best = TextEncoding::Gb18030;
            conf = c3;
        }
        if conf < 5 {
            Ok(result_of(TextEncoding::Utf8, 6))
        } else {
            Ok(result_of(best, conf))
        }
    }

    /// The text of a file's bytes, decoded in the encoding detected for them
    /// (malformed sequences replaced), together with what was detected.
    pub fn read_text_with_encoding(&self, bytes: &[u8]) -> (r: Result<(String, EncodingResult), String>)
        requires
            bytes@.len() <= usize::MAX / 8,
        ensures
            r matches Ok((t, res)) && (res.encoding, res.confidence_tenths as nat) == detected_encoding(
                bytes@,
                self.sample_size_spec(),
            ) && res.encoding_name@ == encoding_label(res.encoding) && t@ == lossy_decoding_of(
                bytes@,
                encoding_label(res.encoding),
            ),
    {
        let res = match self.detect_encoding(bytes) {
            Ok(res) => res,
            Err(e) => {
                return Err(e);
            },
        };
        let text = decode_lossy(bytes, res.encoding);
        Ok((text, res))
    }
}

impl Default for EncodingDetector {
    fn default() -> (r: EncodingDetector)
        ensures
            r.sample_size_spec() == 8192,
    {
        EncodingDetector::new()
    }
}

/// A detected encoding comes with a confidence of at least 5 and at most 10 tenths.
pub proof fn lemma_detection_confidence_range(bytes: Seq<u8>, sample_size: nat)
    ensures
        5 <= detected_encoding(bytes, sample_size).1 <= 10,
{
}

} // verus!
