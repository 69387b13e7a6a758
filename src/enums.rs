use vstd::prelude::*;

verus! {

/// How a target is handled when it is sampled.
#[derive(Debug, PartialEq, Eq, Structural, Clone, Copy)]
pub enum LinkType {
    /// A page rendered in a live browser tab.
    Generic,
    /// Content fetched as raw bytes (a document link).
    Content,
    Unknown,
    Local,
    Mailto,
    InternalError,
}

/// The reasons collected while judging a sample, and its own error tag.
#[derive(Debug, Clone)]
pub struct Validity {
    pub valid: Option<Vec<ValidReason>>,
    pub invalid: Option<Vec<InvalidReason>>,
    pub error: Option<CustomError>,
}

/// A signal that agrees with the consensus of the earlier samples.
#[derive(Debug, PartialEq, Eq, Structural, Clone, Copy)]
pub enum ValidReason {
    CompressionExact,
    CompressionWithinTolerance,
    ScreenshotHashExact,
    ScreenshotHashWithinTolerance,
    PageHash,
    Title,
    Marker,
    Type,
}

/// A signal that departs from the consensus of the earlier samples.
#[derive(Debug, PartialEq, Eq, Structural, Clone, Copy)]
pub enum InvalidReason {
    Compression,
    PageHash,
    ScreenshotHash,
    Title,
    Type,
}

/// The error tag a sample can carry.
#[derive(Debug, PartialEq, Eq, Structural, Clone, Copy)]
pub enum CustomError {
    InsecureCertificate,
    Redirected,
    BadTitle,
    MarkerNotFound,
    UnknownLinkType,
    LinkTypeLocal,
    LinkTypeMailto,
    BadScreenshot,
    PageNotFound,
    PageError,
    Marker,
    Warning,
    WebDriverError,
}

} // verus!
