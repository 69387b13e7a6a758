use vstd::prelude::*;

use crate::enums::{CustomError, LinkType};
use crate::text::{contains, eq_ignore_ascii_case, eq_ignore_case, has_substring, is_prefix, starts_with};

verus! {

/// The canonical serialization that the URL parser gives `s`, if `s` is a URL.
pub uninterp spec fn canonical_url_of(s: Seq<char>) -> Option<Seq<char>>;

/// Relies on `url::Url::parse` and the URL's serialization: the canonical
/// form of `s`, or nothing when `s` does not parse.
#[verifier::external_body]
fn parse_url(s: &str) -> (r: Option<String>)
    ensures
        match r {
            Some(u) => canonical_url_of(s@) == Some(u@),
            None => canonical_url_of(s@) is None,
        },
{
    url::Url::parse(s).ok().map(|u| u.to_string())
}

/// A monitored resource, held in its canonical URL form.
#[derive(Debug, Clone, Eq, Hash, PartialOrd, Ord)]
pub struct Target {
    text: String,
}

impl View for Target {
    type V = Seq<char>;

    closed spec fn view(&self) -> Seq<char> {
        self.text@
    }
}

impl PartialEq for Target {
    fn eq(&self, other: &Target) -> (r: bool) {
        self.text == other.text
    }
}

impl vstd::std_specs::cmp::PartialEqSpecImpl for Target {
    open spec fn obeys_eq_spec() -> bool {
        true
    }

    open spec fn eq_spec(&self, other: &Target) -> bool {
        self@ == other@
    }
}

impl Target {
    /// Parses `s` as a URL; the target is its canonical form.
    pub fn parse(s: &str) -> (r: Option<Target>)
        ensures
            match r {
                Some(t) => canonical_url_of(s@) == Some(t@),
                None => canonical_url_of(s@) is None,
            },
    {
        match parse_url(s) {
            Some(text) => Some(Target { text }),
            None => None,
        }
    }

    /// A copy of the target.
    pub fn clone_target(&self) -> (r: Target)
        ensures
            r == *self,
    {
        Target { text: self.text.clone() }
    }

    /// The canonical text of the target.
    pub fn as_str(&self) -> (r: &str)
        ensures
            r@ == self@,
    {
        self.text.as_str()
    }
}

/// `s` without its trailing slashes.
pub open spec fn trim_slashes(s: Seq<char>) -> Seq<char>
    decreases s.len(),
{
    if s.len() > 0 && s.last() == '/' {
        trim_slashes(s.drop_last())
    } else {
        s
    }
}

/// The last path segment of `s` (trailing slashes ignored) has the extension
/// `docx` in any ASCII case: it ends in `.docx` and has a stem before the dot.
pub open spec fn is_document(s: Seq<char>) -> bool {
    let t = trim_slashes(s);
    t.len() > 5 && t[t.len() - 6] != '/' && eq_ignore_case(t.subrange(t.len() - 5, t.len() as int), ".docx"@)
}

/// The handling class of a target's text, by the first rule that applies;
/// pages of the network schemes `http` and `https` are rendered.
pub open spec fn link_type_of(s: Seq<char>) -> LinkType {
    if is_document(s) {
        LinkType::Content
    } else if is_prefix("http:"@, s) || is_prefix("https:"@, s) {
        LinkType::Generic
    } else if has_substring(s, "/User"@) || is_prefix("file://"@, s) {
        LinkType::Local
    } else if is_prefix("mailto:"@, s) {
        LinkType::Mailto
    } else {
        LinkType::Unknown
    }
}

fn names_document(s: &str) -> (r: bool)
    ensures
        r == is_document(s@),
{
    let len = s.unicode_len();
    let mut end: usize = len;
    assert(s@.subrange(0, len as int) =~= s@);
    while end > 0 && s.get_char(end - 1) == '/'
        invariant
            len == s@.len(),
            end <= len,
            trim_slashes(s@) == trim_slashes(s@.subrange(0, end as int)),
        decreases end,
    {
        assert(s@.subrange(0, end as int).drop_last() =~= s@.subrange(0, end - 1));
        end = end - 1;
    }
    assert(trim_slashes(s@) == s@.subrange(0, end as int));
    if end <= 5 {
        return false;
    }
    if s.get_char(end - 6) == '/' {
        return false;
    }
    let tail = s.substring_char(end - 5, end);
    assert(s@.subrange(0, end as int).subrange(end - 5, end as int) =~= s@.subrange(end - 5, end as int));
    eq_ignore_ascii_case(tail, ".docx")
}

/// The handling class of a target. Pure and total.
pub fn check_link_type(url: &Target) -> (r: LinkType)
    ensures
        r == link_type_of(url@),
{
    let s = url.as_str();
    if names_document(s) {
        LinkType::Content
    } else if starts_with(s, "http:") || starts_with(s, "https:") {
        LinkType::Generic
    } else if contains(s, "/User") || starts_with(s, "file://") {
        LinkType::Local
    } else if starts_with(s, "mailto:") {
        LinkType::Mailto
    } else {
        LinkType::Unknown
    }
}

/// The failure a page title signals, by the first rule that applies.
pub open spec fn title_error(t: Seq<char>) -> Option<CustomError> {
    if has_substring(t, "404"@) || has_substring(t, "Not Found"@) {
        Some(CustomError::PageNotFound)
    } else if has_substring(t, "Warning"@) {
        Some(CustomError::Warning)
    } else if has_substring(t, "Error"@) || has_substring(t, "Unable to"@) || has_substring(t, "Problem"@) {
        Some(CustomError::PageError)
    } else {
        None
    }
}

/// Checks a page title against the words that mark a failed page.
pub fn title_check(title: &str) -> (r: Result<(), CustomError>)
    ensures
        match title_error(title@) {
            Some(e) => r == Err::<(), CustomError>(e),
            None => r is Ok,
        },
{
    if contains(title, "404") || contains(title, "Not Found") {
        return Err(CustomError::PageNotFound);
    }
    if contains(title, "Warning") {
        return Err(CustomError::Warning);
    }
    if contains(title, "Error") || contains(title, "Unable to") || contains(title, "Problem") {
        return Err(CustomError::PageError);
    }
    Ok(())
}

/// The error tag a sample of a target of class `lt` carries without any
/// capture: the classes that are never fetched are errors by themselves.
pub open spec fn class_error(lt: LinkType) -> Option<CustomError> {
    match lt {
        LinkType::Generic => None,
        LinkType::Content => None,
        LinkType::Local => Some(CustomError::LinkTypeLocal),
        LinkType::Mailto => Some(CustomError::LinkTypeMailto),
        LinkType::Unknown => Some(CustomError::UnknownLinkType),
        LinkType::InternalError => Some(CustomError::WebDriverError),
    }
}

/// The error tag that a target of class `lt` carries without any capture.
pub fn link_type_error(lt: LinkType) -> (r: Option<CustomError>)
    ensures
        r == class_error(lt),
{
    match lt {
        LinkType::Generic => None,
        LinkType::Content => None,
        LinkType::Local => Some(CustomError::LinkTypeLocal),
        LinkType::Mailto => Some(CustomError::LinkTypeMailto),
        LinkType::Unknown => Some(CustomError::UnknownLinkType),
        LinkType::InternalError => Some(CustomError::WebDriverError),
    }
}

/// Classification depends on the target's text alone: two targets with the
/// same text always get the same class.
pub proof fn lemma_classification_is_pure(a: Target, b: Target)
    requires
        a@ == b@,
    ensures
        link_type_of(a@) == link_type_of(b@),
{
}

} // verus!
