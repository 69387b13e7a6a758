use vstd::prelude::*;

use crate::classify::{class_error, title_error, title_check, Target};
use crate::enums::{CustomError, LinkType};
use crate::text::{contains, has_substring, same_text};

verus! {

#[verifier::external_type_specification]
#[verifier::external_body]
pub struct ExDynamicImage(image::DynamicImage);

/// The BLAKE2s-256 digest of the UTF-8 bytes of `s`.
pub uninterp spec fn blake2s256_of(s: Seq<char>) -> Seq<u8>;

/// The length of the zlib stream that the encoder writes for the UTF-8 bytes
/// of `s` at its best compression level.
pub uninterp spec fn zlib_best_len_of(s: Seq<char>) -> nat;

/// The Hamming distance between two perceptual hashes given in unpadded
/// base64, or nothing when either does not decode to a hash.
pub uninterp spec fn screenshot_distance_of(a: Seq<char>, b: Seq<char>) -> Option<u32>;

/// What the regex `pattern` leaves of `text` when every match is removed, or
/// nothing when `pattern` does not compile.
pub uninterp spec fn regex_erased(pattern: Seq<char>, text: Seq<char>) -> Option<Seq<char>>;

/// Relies on `blake2::Blake2s256`: the 32-byte digest of the bytes of `s`.
#[verifier::external_body]
fn blake2s256(s: &str) -> (r: Vec<u8>)
    ensures
        r@ == blake2s256_of(s@),
        r@.len() == 32,
{
    <blake2::Blake2s256 as blake2::Digest>::digest(s.as_bytes()).to_vec()
}

/// Relies on `flate2::write::ZlibEncoder` at `Compression::best()`: the length
/// of the stream it produces for the bytes of `s`.
#[verifier::external_body]
fn zlib_best_len(s: &str) -> (r: usize)
    ensures
        r as nat == zlib_best_len_of(s@),
{
    let mut e = flate2::write::ZlibEncoder::new(Vec::new(), flate2::Compression::best());
    let _ = std::io::Write::write_all(&mut e, s.as_bytes());
    e.finish().map(|v| v.len()).unwrap_or(0)
}

/// Relies on `image_hasher::ImageHash::from_base64` and `ImageHash::dist`:
/// decodes both hashes and counts the bits in which they differ.
#[verifier::external_body]
fn hash_distance(a: &str, b: &str) -> (r: Option<u32>)
    ensures
        r == screenshot_distance_of(a@, b@),
{
    let x = image_hasher::ImageHash::<Box<[u8]>>::from_base64(a).ok()?;
    let y = image_hasher::ImageHash::<Box<[u8]>>::from_base64(b).ok()?;
    Some(x.dist(&y))
}

/// Relies on `regex::Regex::new` and `Regex::replace_all`: removes every
/// match of `pattern` from `text`.
#[verifier::external_body]
fn regex_erase(pattern: &str, text: &str) -> (r: Option<String>)
    ensures
        match r {
            Some(s) => regex_erased(pattern@, text@) == Some(s@),
            None => regex_erased(pattern@, text@) is None,
        },
{
    let re = regex::Regex::new(pattern).ok()?;
    Some(re.replace_all(text, "").into_owned())
}

/// Relies on `image::load_from_memory`: decodes an encoded screenshot, or
/// gives the empty default image when it does not decode.
#[verifier::external_body]
fn decode_screenshot(bytes: &[u8]) -> image::DynamicImage {
    image::load_from_memory(bytes).unwrap_or_default()
}

/// Relies on `image_hasher`'s default hasher: the perceptual hash of `image`
/// in unpadded base64.
#[verifier::external_body]
pub fn hash_img(image: &image::DynamicImage) -> String {
    image_hasher::HasherConfig::new().to_hasher().hash_image(image).to_base64()
}

/// Relies on `chrono::Utc::now`: the current time.
#[verifier::external_body]
pub(crate) fn now() -> Timestamp {
    let t = chrono::Utc::now();
    Timestamp { secs: t.timestamp(), nanos: t.timestamp_subsec_nanos() }
}

/// A point in time: whole seconds since the Unix epoch and the nanoseconds
/// past that second.
#[derive(Debug, Clone, Copy, PartialEq, Eq, Structural)]
pub struct Timestamp {
    pub secs: i64,
    pub nanos: u32,
}

/// The lower-case hexadecimal digit of `n`.
pub open spec fn hex_char(n: u8) -> char {
    if n < 10 {
        (n + 48) as char
    } else {
        (n + 87) as char
    }
}

/// Two lower-case hexadecimal digits per byte, high digit first.
pub open spec fn hex_of(b: Seq<u8>) -> Seq<char>
    decreases b.len(),
{
    if b.len() == 0 {
        Seq::empty()
    } else {
        hex_of(b.drop_last()) + seq![hex_char(b.last() / 16), hex_char(b.last() % 16)]
    }
}

/// The content digest of a text: its BLAKE2s-256 digest in hexadecimal.
pub open spec fn digest_of(s: Seq<char>) -> Seq<char> {
    hex_of(blake2s256_of(s))
}

fn hex_digit(n: u8) -> (r: &'static str)
    requires
        n < 16,
    ensures
        r@ == seq![hex_char(n)],
{
    proof {
        reveal_strlit("0");
        reveal_strlit("1");
        reveal_strlit("2");
        reveal_strlit("3");
        reveal_strlit("4");
        reveal_strlit("5");
        reveal_strlit("6");
        reveal_strlit("7");
        reveal_strlit("8");
        reveal_strlit("9");
        reveal_strlit("a");
        reveal_strlit("b");
        reveal_strlit("c");
        reveal_strlit("d");
        reveal_strlit("e");
        reveal_strlit("f");
    }
    let r = match n {
        0 => "0",
        1 => "1",
        2 => "2",
        3 => "3",
        4 => "4",
        5 => "5",
        6 => "6",
        7 => "7",
        8 => "8",
        9 => "9",
        10 => "a",
        11 => "b",
        12 => "c",
        13 => "d",
        14 => "e",
        _ => "f",
    };
    assert(r@ =~= seq![hex_char(n)]);
    r
}

/// The content digest of `source`: BLAKE2s-256 of its bytes, in lower-case
/// hexadecimal.
pub fn hash_string(source: &String) -> (r: String)
    ensures
        r@ == digest_of(source@),
        r@.len() == 64,
{
    let digest = blake2s256(source.as_str());
    let mut hash = String::new();
    let mut i: usize = 0;
    while i < digest.len()
        invariant
            i <= digest@.len(),
            digest@.len() == 32,
            digest@ == blake2s256_of(source@),
            hash@ == hex_of(digest@.subrange(0, i as int)),
            hash@.len() == 2 * i,
        decreases digest@.len() - i,
    {
        let byte = digest[i];
        hash.append(hex_digit(byte / 16));
        hash.append(hex_digit(byte % 16));
        assert(digest@.subrange(0, i + 1).drop_last() =~= digest@.subrange(0, i as int));
        i = i + 1;
    }
    assert(digest@.subrange(0, 32) =~= digest@);
    hash
}

/// One observation of a target.
#[derive(Debug, Clone)]
pub struct State {
    /// Hexadecimal digest of the captured text.
    pub hash: String,
    /// Length of the captured text after best-ratio zlib compression.
    pub compress_length: usize,
    /// Perceptual hash of the screenshot, for pages captured in a browser.
    pub screenshot_hash: Option<String>,
    pub title: Option<String>,
    pub link_type: LinkType,
    pub check_time: Timestamp,
    pub error: Option<CustomError>,
}

/// The text of a read, empty where the read failed.
pub open spec fn text_or_empty(o: Option<String>) -> Seq<char> {
    match o {
        Some(s) => s@,
        None => Seq::empty(),
    }
}

/// The views of an optional string.
pub open spec fn opt_view(o: Option<String>) -> Option<Seq<char>> {
    match o {
        Some(s) => Some(s@),
        None => None,
    }
}

/// A copy of an optional string.
pub fn copy_opt(o: &Option<String>) -> (r: Option<String>)
    ensures
        r == *o,
{
    match o {
        Some(s) => Some(s.clone()),
        None => None,
    }
}

/// The error tag of a page captured in a browser, by the checks in turn; a
/// later failed check replaces the tag of an earlier one.
pub open spec fn capture_error_of(
    url: Seq<char>,
    current_url: Seq<char>,
    title: Seq<char>,
    page_source: Seq<char>,
    screenshot_hash: Seq<char>,
    marker: Option<Seq<char>>,
) -> Option<CustomError> {
    if url != current_url {
        Some(CustomError::Redirected)
    } else if title_error(title) is Some {
        title_error(title)
    } else if marker is Some && !has_substring(page_source, marker.unwrap()) {
        Some(CustomError::MarkerNotFound)
    } else if screenshot_hash == BLANK_SCREENSHOT_HASH@ {
        Some(CustomError::BadScreenshot)
    } else {
        None
    }
}

/// The perceptual hash of a blank screenshot: a capture that failed.
pub const BLANK_SCREENSHOT_HASH: &'static str = "AAAAAAAAAAA";

/// The pattern of the per-session token that a cookie-banner extension
/// injects into pages.
pub const VOLATILE_TOKEN_PATTERN: &'static str = " [a-z]* idc0_343";

/// The advisory checks on a page captured in a browser: a blank screenshot,
/// a missing marker, a title that signals failure, a redirect.
pub fn capture_error(
    url: &Target,
    current_url: &str,
    title: &str,
    page_source: &str,
    screenshot_hash: &str,
    marker: Option<&String>,
) -> (r: Option<CustomError>)
    ensures
        r == capture_error_of(
            url@,
            current_url@,
            title@,
            page_source@,
            screenshot_hash@,
            match marker {
                Some(m) => Some(m@),
                None => None,
            },
        ),
{
    let mut error: Option<CustomError> = None;
    if same_text(screenshot_hash, BLANK_SCREENSHOT_HASH) {
        error = Some(CustomError::BadScreenshot);
    }
    if let Some(m) = marker {
        if !contains(page_source, m.as_str()) {
            error = Some(CustomError::MarkerNotFound);
        }
    }
    if let Err(e) = title_check(title) {
        error = Some(e);
    }
    if !same_text(url.as_str(), current_url) {
        error = Some(CustomError::Redirected);
    }
    error
}

/// The page text with the injected per-session token removed.
pub open spec fn normalized_text(raw: Seq<char>) -> Seq<char> {
    match regex_erased(VOLATILE_TOKEN_PATTERN@, raw) {
        Some(s) => s,
        None => raw,
    }
}

/// Removes the per-session token that a browser extension injects, so that it
/// does not show as a change of content.
pub fn normalize_page_source(raw: &str) -> (r: String)
    ensures
        r@ == normalized_text(raw@),
{
    match regex_erase(VOLATILE_TOKEN_PATTERN, raw) {
        Some(s) => s,
        None => String::from_str(raw),
    }
}

impl State {
    /// A sample of `content` whose screenshot, if any, was hashed already.
    pub fn from_screenshot_hash(
        content: &str,
        screenshot_hash: Option<String>,
        title: Option<String>,
        link_type: LinkType,
        error: Option<CustomError>,
    ) -> (r: State)
        ensures
            r.hash@ == digest_of(content@),
            r.compress_length as nat == zlib_best_len_of(content@),
            r.screenshot_hash == screenshot_hash,
            r.title == title,
            r.link_type == link_type,
            r.error == error,
    {
        let hash = hash_string(&String::from_str(content));
        let compress_length = zlib_best_len(content);
        State {
            hash,
            compress_length,
            screenshot_hash,
            title,
            link_type,
            check_time: now(),
            error,
        }
    }

    /// A sample of `content`, with the perceptual hash of `screenshot` if one
    /// is given.
    pub fn new(
        content: &str,
        screenshot: Option<image::DynamicImage>,
        title: Option<String>,
        link_type: LinkType,
        error: Option<CustomError>,
    ) -> (r: State)
        ensures
            r.hash@ == digest_of(content@),
            r.compress_length as nat == zlib_best_len_of(content@),
            r.screenshot_hash is Some <==> screenshot is Some,
            r.title == title,
            r.link_type == link_type,
            r.error == error,
    {
        let screenshot_hash = match screenshot {
            Some(img) => Some(hash_img(&img)),
            None => None,
        };
        State::from_screenshot_hash(content, screenshot_hash, title, link_type, error)
    }

    /// The sample of a target that is not fetched: empty content, and the
    /// error tag of its class.
    pub fn unfetched(link_type: LinkType) -> (r: State)
        ensures
            r.hash@ == digest_of(Seq::empty()),
            r.compress_length as nat == zlib_best_len_of(Seq::empty()),
            r.screenshot_hash is None,
            r.title is None,
            r.link_type == link_type,
            r.error == class_error(link_type),
    {
        let empty = String::new();
        State::from_screenshot_hash(empty.as_str(), None, None, link_type, crate::classify::link_type_error(link_type))
    }

    /// The sample of a page captured in a browser, from the outcome of each
    /// read (`None` where the read failed): its text is normalized, its
    /// screenshot decoded and hashed, and the advisory checks give its error
    /// tag. A failed read tags the sample as a driver error.
    pub fn captured(
        url: &Target,
        marker: Option<&String>,
        title: Option<String>,
        raw_page_source: Option<String>,
        screenshot_png: Option<Vec<u8>>,
        current_url: Option<String>,
    ) -> (r: State)
        ensures
            r.hash@ == digest_of(normalized_text(text_or_empty(raw_page_source))),
            r.compress_length as nat == zlib_best_len_of(normalized_text(text_or_empty(raw_page_source))),
            r.screenshot_hash is Some,
            r.title == title,
            r.link_type == LinkType::Generic,
            r.error == if title is None || raw_page_source is None || screenshot_png is None || current_url is None {
                Some(CustomError::WebDriverError)
            } else {
                capture_error_of(
                    url@,
                    current_url.unwrap()@,
                    title.unwrap()@,
                    normalized_text(raw_page_source.unwrap()@),
                    r.screenshot_hash.unwrap()@,
                    match marker {
                        Some(m) => Some(m@),
                        None => None,
                    },
                )
            },
    {
        let failed = title.is_none() || raw_page_source.is_none() || screenshot_png.is_none() || current_url.is_none();
        let raw = match raw_page_source {
            Some(s) => s,
            None => String::new(),
        };
        let page_source = normalize_page_source(raw.as_str());
        let png = match screenshot_png {
            Some(p) => p,
            None => Vec::new(),
        };
        let img = decode_screenshot(png.as_slice());
        let shot = hash_img(&img);
        let error = if failed {
            Some(CustomError::WebDriverError)
        } else {
            match (&title, &current_url) {
                (Some(t), Some(c)) => capture_error(url, c.as_str(), t.as_str(), page_source.as_str(), shot.as_str(), marker),
                _ => Some(CustomError::WebDriverError),
            }
        };
        State::from_screenshot_hash(page_source.as_str(), Some(shot), title, LinkType::Generic, error)
    }

    /// The sample of a page whose tab could not be opened: no content, and
    /// tagged as a driver error.
    pub fn browser_failed() -> (r: State)
        ensures
            r.hash@ == digest_of(Seq::empty()),
            r.screenshot_hash is None,
            r.title is None,
            r.link_type == LinkType::Generic,
            r.error == Some(CustomError::WebDriverError),
    {
        let empty = String::new();
        State::from_screenshot_hash(empty.as_str(), None, None, LinkType::Generic, Some(CustomError::WebDriverError))
    }

    /// The bit distance between this sample's screenshot hash and `other`,
    /// when both are present and decode.
    pub fn cal_screenshot_similarity(&self, screenshot_hash: Option<String>) -> (r: Option<u32>)
        ensures
            r == match (self.screenshot_hash, screenshot_hash) {
                (Some(a), Some(b)) => screenshot_distance_of(a@, b@),
                _ => None,
            },
    {
        match (&self.screenshot_hash, &screenshot_hash) {
            (Some(a), Some(b)) => hash_distance(a.as_str(), b.as_str()),
            _ => None,
        }
    }

    /// A copy of this sample.
    pub fn duplicate(&self) -> (r: State)
        ensures
            r == *self,
    {
        State {
            hash: self.hash.clone(),
            compress_length: self.compress_length,
            screenshot_hash: copy_opt(&self.screenshot_hash),
            title: copy_opt(&self.title),
            link_type: self.link_type,
            check_time: self.check_time,
            error: self.error,
        }
    }
}

} // verus!
