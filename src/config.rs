use vstd::prelude::*;

use crate::classify::{canonical_url_of, Target};
use crate::text::same_text;

verus! {

/// The value of an ASCII digit.
pub open spec fn digit_value(c: char) -> int {
    (c as u32) as int - 48
}

/// `c` is an ASCII digit.
pub open spec fn is_digit(c: char) -> bool {
    48 <= (c as u32) && (c as u32) <= 57
}

/// Every character of `s` is an ASCII digit.
pub open spec fn all_digits(s: Seq<char>) -> bool {
    forall|i: int| 0 <= i < s.len() ==> is_digit(#[trigger] s[i])
}

/// The number that the decimal digits `s` write.
pub open spec fn digits_value(s: Seq<char>) -> int
    decreases s.len(),
{
    if s.len() == 0 {
        0
    } else {
        digits_value(s.drop_last()) * 10 + digit_value(s.last())
    }
}

/// `s` without a leading plus sign.
pub open spec fn unsigned_digits(s: Seq<char>) -> Seq<char> {
    if s.len() > 0 && s[0] == '+' {
        s.drop_first()
    } else {
        s
    }
}

/// The unsigned number that `s` writes in decimal, with an optional leading
/// plus sign, if it is at most `max`.
pub open spec fn parsed_unsigned(s: Seq<char>, max: int) -> Option<int> {
    let d = unsigned_digits(s);
    if d.len() > 0 && all_digits(d) && digits_value(d) <= max {
        Some(digits_value(d))
    } else {
        None
    }
}

/// The boolean that `s` spells.
pub open spec fn parsed_bool(s: Seq<char>) -> Option<bool> {
    if s == "true"@ {
        Some(true)
    } else if s == "false"@ {
        Some(false)
    } else {
        None
    }
}

proof fn lemma_digits_value_grows(s: Seq<char>, k: int)
    requires
        all_digits(s),
        0 <= k <= s.len(),
    ensures
        0 <= digits_value(s.subrange(0, k)) <= digits_value(s),
    decreases s.len(),
{
    if s.len() > 0 {
        assert(all_digits(s.drop_last()));
        if k == s.len() {
            assert(s.subrange(0, k) =~= s);
            lemma_digits_value_grows(s.drop_last(), k - 1);
            assert(s.drop_last().subrange(0, k - 1) =~= s.drop_last());
        } else {
            lemma_digits_value_grows(s.drop_last(), k);
            assert(s.drop_last().subrange(0, k) =~= s.subrange(0, k));
            lemma_digits_value_grows(s.drop_last(), s.len() - 1);
            assert(s.drop_last().subrange(0, s.len() - 1) =~= s.drop_last());
        }
        assert(is_digit(s.last()));
        assert(digit_value(s.last()) >= 0);
    }
}

/// Parses an unsigned decimal number no greater than `max`.
pub fn parse_unsigned(s: &str, max: u64) -> (r: Option<u64>)
    ensures
        match r {
            Some(n) => parsed_unsigned(s@, max as int) == Some(n as int),
            None => parsed_unsigned(s@, max as int) is None,
        },
{
    let len = s.unicode_len();
    let start: usize = if len > 0 && s.get_char(0) == '+' {
        1
    } else {
        0
    };
    let ghost d = unsigned_digits(s@);
    assert(d =~= s@.subrange(start as int, len as int));
    if start == len {
        return None;
    }
    let mut acc: u64 = 0;
    let mut i: usize = start;
    while i < len
        invariant
            len == s@.len(),
            start <= i <= len,
            d == s@.subrange(start as int, len as int),
            d == unsigned_digits(s@),
            all_digits(d.subrange(0, i - start)),
            acc as int == digits_value(d.subrange(0, i - start)),
            acc <= max,
        decreases len - i,
    {
        let c = s.get_char(i);
        let code = c as u32;
        if code < 48 || code > 57 {
            assert(d[i - start] == c);
            assert(!is_digit(d[i - start]));
            assert(!all_digits(d));
            return None;
        }
        let digit = (code - 48) as u64;
        let ghost next = d.subrange(0, i - start + 1);
        assert(next.drop_last() =~= d.subrange(0, i - start));
        assert(digits_value(next) == acc * 10 + digit);
        if digit > max || acc > (max - digit) / 10 {
            assert(acc * 10 + digit > max) by (nonlinear_arith)
                requires
                    digit > max || acc > (max - digit) / 10,
                    digit <= max ==> (max - digit) / 10 * 10 + 10 > max - digit,
            {}
            proof {
                if all_digits(d) {
                    lemma_digits_value_grows(d, i - start + 1);
                    assert(digits_value(d) > max);
                }
            }
            return None;
        }
        assert(acc * 10 + digit <= max) by (nonlinear_arith)
            requires
                acc <= (max - digit) / 10,
                digit <= max,
        {}
        acc = acc * 10 + digit;
        assert(all_digits(next));
        i = i + 1;
    }
    assert(d.subrange(0, len - start) =~= d);
    Some(acc)
}

fn parse_usize(s: &str) -> (r: Option<usize>)
    ensures
        match parsed_unsigned(s@, usize::MAX as int) {
            Some(n) => r == Some(n as usize),
            None => r is None,
        },
{
    let r = parse_unsigned(s, usize::MAX as u64);
    assert((usize::MAX as u64) as int == usize::MAX as int);
    assert(parsed_unsigned(s@, (usize::MAX as u64) as int) == parsed_unsigned(s@, usize::MAX as int));
    match r {
        Some(n) => {
            assert(parsed_unsigned(s@, usize::MAX as int) == Some(n as int));
            Some(n as usize)
        },
        None => None,
    }
}

fn parse_u32(s: &str) -> (r: Option<u32>)
    ensures
        match parsed_unsigned(s@, u32::MAX as int) {
            Some(n) => r == Some(n as u32),
            None => r is None,
        },
{
    let r = parse_unsigned(s, u32::MAX as u64);
    assert((u32::MAX as u64) as int == u32::MAX as int);
    assert(parsed_unsigned(s@, (u32::MAX as u64) as int) == parsed_unsigned(s@, u32::MAX as int));
    match r {
        Some(n) => {
            assert(parsed_unsigned(s@, u32::MAX as int) == Some(n as int));
            Some(n as u32)
        },
        None => None,
    }
}

/// Parses `true` or `false`.
pub fn parse_bool(s: &str) -> (r: Option<bool>)
    ensures
        r == parsed_bool(s@),
{
    if same_text(s, "true") {
        Some(true)
    } else if same_text(s, "false") {
        Some(false)
    } else {
        None
    }
}

/// The command-line switches of the application.
#[derive(Debug, Clone, Copy, PartialEq, Eq, Structural)]
pub struct Args {
    /// Remove all stored settings and history before starting.
    pub clean_start: bool,
    /// Look for a newer release of the application at start.
    pub check_for_update: bool,
}

/// A browser extension to install, published as a GitHub release.
#[derive(Debug, Clone)]
pub struct Extensions {
    pub repo: String,
    pub name: String,
}

impl Default for Extensions {
    fn default() -> (r: Self)
        ensures
            r.repo@ == "OhMyGuus"@,
            r.name@ == "I-Still-Dont-Care-About-Cookies"@,
    {
        Extensions {
            repo: String::from_str("OhMyGuus"),
            name: String::from_str("I-Still-Dont-Care-About-Cookies"),
        }
    }
}

/// Settings of the browser-automation driver. Timeouts are in seconds.
#[derive(Debug, Clone)]
pub struct GeckoConfig {
    pub version: String,
    pub headless: bool,
    pub width: u32,
    pub height: u32,
    pub ip: String,
    pub port: u16,
    pub page_load_timeout: u64,
    pub script_timeout: u64,
}

impl Default for GeckoConfig {
    fn default() -> (r: Self)
        ensures
            r.version@ == "0.34.0"@,
            r.headless,
            r.width == 1080,
            r.height == 2000,
            r.ip@ == "127.0.0.1"@,
            r.port == 4444,
            r.page_load_timeout == 15,
            r.script_timeout == 15,
    {
        GeckoConfig {
            version: String::from_str("0.34.0"),
            headless: true,
            width: 1080,
            height: 2000,
            ip: String::from_str("127.0.0.1"),
            port: 4444,
            page_load_timeout: 15,
            script_timeout: 15,
        }
    }
}

/// The settings of a run. `page_dwell_time` is in seconds.
#[derive(Debug, Clone)]
pub struct Config {
    pub github_username: Option<String>,
    /// Canonical form of the URL of the source document.
    pub pdf_url: Option<String>,
    pub num_of_local_pages: usize,
    pub keep_local_records: bool,
    /// Share (percent) that the most frequent earlier screenshot hash must
    /// exceed before a near match counts.
    pub screenshot_diff_confidence: usize,
    /// Bit distance up to which (bound included) a screenshot hash counts as a
    /// near match.
    pub screenshot_diff_tolerance: u32,
    /// Absolute distance from the consensus compressed size that still counts
    /// as a match.
    pub compression_length_tolerance: usize,
    pub page_dwell_time: u64,
    pub pdf_path: Option<String>,
    pub gecko: GeckoConfig,
    pub extensions: Option<Vec<Extensions>>,
}

impl Default for Config {
    fn default() -> (r: Self)
        ensures
            r.github_username matches Some(u) && u@ == "Awesome-Octocat-App"@,
            r.pdf_url matches Some(u) && u@ == "https://github.com/"@,
            r.pdf_path is None,
            r.screenshot_diff_confidence == 60,
            r.screenshot_diff_tolerance == 3,
            r.compression_length_tolerance == 300,
            r.keep_local_records,
            r.page_dwell_time == 45,
            r.num_of_local_pages == 2,
            r.extensions matches Some(v) && v@.len() == 1,
    {
        let mut extensions = Vec::new();
        extensions.push(Extensions::default());
        Config {
            github_username: Some(String::from_str("Awesome-Octocat-App")),
            pdf_url: Some(String::from_str("https://github.com/")),
            pdf_path: None,
            screenshot_diff_confidence: 60,
            screenshot_diff_tolerance: 3,
            compression_length_tolerance: 300,
            keep_local_records: true,
            page_dwell_time: 45,
            num_of_local_pages: 2,
            gecko: GeckoConfig::default(),
            extensions: Some(extensions),
        }
    }
}

/// A setting that can be changed by name.
#[derive(Debug, PartialEq, Eq, Structural, Clone, Copy)]
pub enum SettingKey {
    GithubUsername,
    PdfUrl,
    NumOfLocalPages,
    KeepLocalRecords,
    ScreenshotDiffConfidence,
    ScreenshotDiffTolerance,
    CompressionLengthTolerance,
    PageDwellTime,
    PdfPath,
    GeckoVersion,
    GeckoHeadless,
    GeckoWidth,
    GeckoHeight,
    GeckoPageLoadTimeout,
    GeckoScriptTimeout,
}

/// Why a setting could not be changed.
#[derive(Debug, PartialEq, Eq, Structural, Clone, Copy)]
pub enum ConfigError {
    /// No setting has that name.
    UnknownKey,
    /// The text is no value of the setting.
    InvalidValue,
}

/// The setting named `k`.
pub open spec fn setting_key_of(k: Seq<char>) -> Option<SettingKey> {
    if k == "github_username"@ {
        Some(SettingKey::GithubUsername)
    } else if k == "pdf_url"@ {
        Some(SettingKey::PdfUrl)
    } else if k == "num_of_local_pages"@ {
        Some(SettingKey::NumOfLocalPages)
    } else if k == "keep_local_records"@ {
        Some(SettingKey::KeepLocalRecords)
    } else if k == "screenshot_diff_confidence"@ {
        Some(SettingKey::ScreenshotDiffConfidence)
    } else if k == "screenshot_diff_tolerance"@ {
        Some(SettingKey::ScreenshotDiffTolerance)
    } else if k == "compression_length_tolerance"@ {
        Some(SettingKey::CompressionLengthTolerance)
    } else if k == "page_dwell_time"@ {
        Some(SettingKey::PageDwellTime)
    } else if k == "pdf_path"@ {
        Some(SettingKey::PdfPath)
    } else if k == "gecko_version"@ {
        Some(SettingKey::GeckoVersion)
    } else if k == "gecko_headless"@ {
        Some(SettingKey::GeckoHeadless)
    } else if k == "gecko_width"@ {
        Some(SettingKey::GeckoWidth)
    } else if k == "gecko_height"@ {
        Some(SettingKey::GeckoHeight)
    } else if k == "gecko_page_load_timeout"@ {
        Some(SettingKey::GeckoPageLoadTimeout)
    } else if k == "gecko_script_timeout"@ {
        Some(SettingKey::GeckoScriptTimeout)
    } else {
        None
    }
}

/// `v` is a value of the setting `k`.
pub open spec fn value_accepted(k: SettingKey, v: Seq<char>) -> bool {
    match k {
        SettingKey::GithubUsername => true,
        SettingKey::PdfUrl => canonical_url_of(v) is Some,
        SettingKey::NumOfLocalPages => parsed_unsigned(v, usize::MAX as int) is Some,
        SettingKey::KeepLocalRecords => parsed_bool(v) is Some,
        SettingKey::ScreenshotDiffConfidence => parsed_unsigned(v, usize::MAX as int) is Some,
        SettingKey::ScreenshotDiffTolerance => parsed_unsigned(v, u32::MAX as int) is Some,
        SettingKey::CompressionLengthTolerance => parsed_unsigned(v, usize::MAX as int) is Some,
        SettingKey::PageDwellTime => parsed_unsigned(v, u64::MAX as int) is Some,
        SettingKey::PdfPath => true,
        SettingKey::GeckoVersion => true,
        SettingKey::GeckoHeadless => parsed_bool(v) is Some,
        SettingKey::GeckoWidth => parsed_unsigned(v, u32::MAX as int) is Some,
        SettingKey::GeckoHeight => parsed_unsigned(v, u32::MAX as int) is Some,
        SettingKey::GeckoPageLoadTimeout => parsed_unsigned(v, u64::MAX as int) is Some,
        SettingKey::GeckoScriptTimeout => parsed_unsigned(v, u64::MAX as int) is Some,
    }
}

/// `new` is `old` with the setting `k` set to the value that `v` writes, and
/// nothing else changed.
pub open spec fn config_after(old: Config, new: Config, k: SettingKey, v: Seq<char>) -> bool {
    match k {
        SettingKey::GithubUsername => new.github_username matches Some(u) && u@ == v
            && new == (Config { github_username: new.github_username, ..old }),
        SettingKey::PdfUrl => new.pdf_url matches Some(u) && canonical_url_of(v) == Some(u@)
            && new == (Config { pdf_url: new.pdf_url, ..old }),
        SettingKey::NumOfLocalPages => new == (Config {
            num_of_local_pages: parsed_unsigned(v, usize::MAX as int).unwrap() as usize,
            ..old
        }),
        SettingKey::KeepLocalRecords => new == (Config { keep_local_records: parsed_bool(v).unwrap(), ..old }),
        SettingKey::ScreenshotDiffConfidence => new == (Config {
            screenshot_diff_confidence: parsed_unsigned(v, usize::MAX as int).unwrap() as usize,
            ..old
        }),
        SettingKey::ScreenshotDiffTolerance => new == (Config {
            screenshot_diff_tolerance: parsed_unsigned(v, u32::MAX as int).unwrap() as u32,
            ..old
        }),
        SettingKey::CompressionLengthTolerance => new == (Config {
            compression_length_tolerance: parsed_unsigned(v, usize::MAX as int).unwrap() as usize,
            ..old
        }),
        SettingKey::PageDwellTime => new == (Config {
            page_dwell_time: parsed_unsigned(v, u64::MAX as int).unwrap() as u64,
            ..old
        }),
        SettingKey::PdfPath => new.pdf_path matches Some(p) && p@ == v && new == (Config { pdf_path: new.pdf_path, ..old }),
        SettingKey::GeckoVersion => new.gecko.version@ == v && new == (Config {
            gecko: GeckoConfig { version: new.gecko.version, ..old.gecko },
            ..old
        }),
        SettingKey::GeckoHeadless => new == (Config {
            gecko: GeckoConfig { headless: parsed_bool(v).unwrap(), ..old.gecko },
            ..old
        }),
        SettingKey::GeckoWidth => new == (Config {
            gecko: GeckoConfig { width: parsed_unsigned(v, u32::MAX as int).unwrap() as u32, ..old.gecko },
            ..old
        }),
        SettingKey::GeckoHeight => new == (Config {
            gecko: GeckoConfig { height: parsed_unsigned(v, u32::MAX as int).unwrap() as u32, ..old.gecko },
            ..old
        }),
        SettingKey::GeckoPageLoadTimeout => new == (Config {
            gecko: GeckoConfig { page_load_timeout: parsed_unsigned(v, u64::MAX as int).unwrap() as u64, ..old.gecko },
            ..old
        }),
        SettingKey::GeckoScriptTimeout => new == (Config {
            gecko: GeckoConfig { script_timeout: parsed_unsigned(v, u64::MAX as int).unwrap() as u64, ..old.gecko },
            ..old
        }),
    }
}

impl SettingKey {
    /// The setting named `key`.
    pub fn from_key(key: &str) -> (r: Option<SettingKey>)
        ensures
            r == setting_key_of(key@),
    {
        if same_text(key, "github_username") {
            Some(SettingKey::GithubUsername)
        } else if same_text(key, "pdf_url") {
            Some(SettingKey::PdfUrl)
        } else if same_text(key, "num_of_local_pages") {
            Some(SettingKey::NumOfLocalPages)
        } else if same_text(key, "keep_local_records") {
            Some(SettingKey::KeepLocalRecords)
        } else if same_text(key, "screenshot_diff_confidence") {
            Some(SettingKey::ScreenshotDiffConfidence)
        } else if same_text(key, "screenshot_diff_tolerance") {
            Some(SettingKey::ScreenshotDiffTolerance)
        } else if same_text(key, "compression_length_tolerance") {
            Some(SettingKey::CompressionLengthTolerance)
        } else if same_text(key, "page_dwell_time") {
            Some(SettingKey::PageDwellTime)
        } else if same_text(key, "pdf_path") {
            Some(SettingKey::PdfPath)
        } else if same_text(key, "gecko_version") {
            Some(SettingKey::GeckoVersion)
        } else if same_text(key, "gecko_headless") {
            Some(SettingKey::GeckoHeadless)
        } else if same_text(key, "gecko_width") {
            Some(SettingKey::GeckoWidth)
        } else if same_text(key, "gecko_height") {
            Some(SettingKey::GeckoHeight)
        } else if same_text(key, "gecko_page_load_timeout") {
            Some(SettingKey::GeckoPageLoadTimeout)
        } else if same_text(key, "gecko_script_timeout") {
            Some(SettingKey::GeckoScriptTimeout)
        } else {
            None
        }
    }
}

impl Config {
    /// Sets the setting named `key` from its text `value`. An unknown name
    /// and a text that is no value of the setting are errors, and leave the
    /// settings as they were.
    pub fn update(&mut self, key: &str, value: &str) -> (r: Result<(), ConfigError>)
        ensures
            match setting_key_of(key@) {
                None => r == Err::<(), ConfigError>(ConfigError::UnknownKey) && *final(self) == *old(self),
                Some(k) => if value_accepted(k, value@) {
                    r is Ok && config_after(*old(self), *final(self), k, value@)
                } else {
                    r == Err::<(), ConfigError>(ConfigError::InvalidValue) && *final(self) == *old(self)
                },
            },
    {
        assert(usize::MAX as int == usize::MAX as int);
        let k = match SettingKey::from_key(key) {
            Some(k) => k,
            None => {
                return Err(ConfigError::UnknownKey);
            },
        };
        match k {
            SettingKey::GithubUsername => {
                self.github_username = Some(String::from_str(value));
            },
            SettingKey::PdfUrl => match Target::parse(value) {
                Some(t) => {
                    self.pdf_url = Some(String::from_str(t.as_str()));
                },
                None => {
                    return Err(ConfigError::InvalidValue);
                },
            },
            SettingKey::NumOfLocalPages => match parse_usize(value) {
                Some(n) => {
                    self.num_of_local_pages = n;
                },
                None => {
                    return Err(ConfigError::InvalidValue);
                },
            },
            SettingKey::KeepLocalRecords => match parse_bool(value) {
                Some(b) => {
                    self.keep_local_records = b;
                },
                None => {
                    return Err(ConfigError::InvalidValue);
                },
            },
            SettingKey::ScreenshotDiffConfidence => match parse_usize(value) {
                Some(n) => {
                    self.screenshot_diff_confidence = n;
                },
                None => {
                    return Err(ConfigError::InvalidValue);
                },
            },
            SettingKey::ScreenshotDiffTolerance => match parse_u32(value) {
                Some(n) => {
                    self.screenshot_diff_tolerance = n;
                },
                None => {
                    return Err(ConfigError::InvalidValue);
                },
            },
            SettingKey::CompressionLengthTolerance => match parse_usize(value) {
                Some(n) => {
                    self.compression_length_tolerance = n;
                },
                None => {
                    return Err(ConfigError::InvalidValue);
                },
            },
            SettingKey::PageDwellTime => match parse_unsigned(value, u64::MAX) {
                Some(n) => {
                    self.page_dwell_time = n;
                },
                None => {
                    return Err(ConfigError::InvalidValue);
                },
            },
            SettingKey::PdfPath => {
                self.pdf_path = Some(String::from_str(value));
            },
            SettingKey::GeckoVersion => {
                self.gecko.version = String::from_str(value);
            },
            SettingKey::GeckoHeadless => match parse_bool(value) {
                Some(b) => {
                    self.gecko.headless = b;
                },
                None => {
                    return Err(ConfigError::InvalidValue);
                },
            },
            SettingKey::GeckoWidth => match parse_u32(value) {
                Some(n) => {
                    self.gecko.width = n;
                },
                None => {
                    return Err(ConfigError::InvalidValue);
                },
            },
            SettingKey::GeckoHeight => match parse_u32(value) {
                Some(n) => {
                    self.gecko.height = n;
                },
                None => {
                    return Err(ConfigError::InvalidValue);
                },
            },
            SettingKey::GeckoPageLoadTimeout => match parse_unsigned(value, u64::MAX) {
                Some(n) => {
                    self.gecko.page_load_timeout = n;
                },
                None => {
                    return Err(ConfigError::InvalidValue);
                },
            },
            SettingKey::GeckoScriptTimeout => match parse_unsigned(value, u64::MAX) {
                Some(n) => {
                    self.gecko.script_timeout = n;
                },
                None => {
                    return Err(ConfigError::InvalidValue);
                },
            },
        }
        Ok(())
    }
}

} // verus!
