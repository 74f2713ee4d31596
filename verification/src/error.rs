use vstd::prelude::*;

verus! {

/// A bounded text field of a share request.
#[derive(Debug, Clone, Copy, PartialEq, Eq, Structural)]
pub enum Field {
    Text,
    Title,
    Url,
    FileName,
    MimeType,
}

/// Why a share request was refused.
#[derive(Debug, Clone, Copy, PartialEq, Eq, Structural)]
pub enum Invalid {
    /// The field's UTF-8 encoding is longer than `max_bytes`.
    TooLong { field: Field, max_bytes: usize },
    /// The URL holds a control or white-space character.
    MalformedUrl,
    /// The URL is not an `http://` or `https://` URL with a host.
    UnsupportedUrl,
    /// More files than the limit allows.
    TooManyFiles,
    /// File data that is not well-shaped Base64.
    InvalidBase64,
    /// The file at this position of the list decodes to more bytes than allowed.
    FileTooLarge { index: usize },
    /// A single decoded file is larger than allowed.
    DecodedFileTooLarge,
    /// The files together decode to more bytes than allowed.
    TotalTooLarge,
    /// The total size of the files does not fit in a `usize`.
    TotalSizeOverflow,
    /// The file name has no final component to use.
    InvalidFileName,
    /// Nothing that could be shared was given.
    NothingToShare,
}

/// Errors of the share plugin.
#[derive(Debug)]
pub enum Error {
    /// The caller handed in arguments that cannot be shared.
    InvalidArgs(Invalid),
    /// A native platform call failed; the message comes from the platform.
    NativeApi(String),
    /// Creating, writing or removing a temporary file failed.
    TempFile(String),
}

} // verus!
