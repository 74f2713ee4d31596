use vstd::prelude::*;

use crate::base64_len::{base64_estimate, estimate_base64_decoded_len};
use crate::error::{Error, Field, Invalid};
use crate::text::utf8_len;
use crate::url::{validate_web_url, web_url_verdict};

verus! {

/// Most files one share request may carry.
pub const MAX_FILES: usize = 16;

/// Largest decoded size of one shared file, in bytes.
pub const MAX_FILE_BYTES: usize = 50 * 1024 * 1024;

/// Largest decoded size of all shared files together, in bytes.
pub const MAX_TOTAL_FILE_BYTES: usize = 100 * 1024 * 1024;

/// Longest shared text, in UTF-8 bytes.
pub const MAX_TEXT_BYTES: usize = 64 * 1024;

/// Longest title, in UTF-8 bytes.
pub const MAX_TITLE_BYTES: usize = 1024;

/// Longest URL, in UTF-8 bytes.
pub const MAX_URL_BYTES: usize = 4096;

/// Longest file name, in UTF-8 bytes.
pub const MAX_FILE_NAME_BYTES: usize = 255;

/// Longest MIME type, in UTF-8 bytes.
pub const MAX_MIME_TYPE_BYTES: usize = 255;

/// A file to be shared: its content as Base64 text, its name and its MIME type.
#[derive(Debug, Clone)]
pub struct SharedFile {
    pub data: String,
    pub name: String,
    pub mime_type: String,
}

/// The rectangle of the page element that a share sheet points at, in
/// web-viewport coordinates (origin at the top left). Each value is the bit
/// pattern of an IEEE-754 double, as `f64::to_bits` gives it.
#[derive(Debug, Clone, Copy)]
pub struct ShareAnchor {
    pub x_bits: u64,
    pub y_bits: u64,
    pub width_bits: u64,
    pub height_bits: u64,
}

/// The content and options of a native share dialog. Every field is optional.
#[derive(Debug, Clone)]
pub struct ShareOptions {
    /// Text to share.
    pub text: Option<String>,
    /// Title of the share dialog.
    pub title: Option<String>,
    /// URL to share.
    pub url: Option<String>,
    /// Files to share, each given by its Base64 content.
    pub files: Option<Vec<SharedFile>>,
    /// Files already on disk, shared by path.
    pub file_paths: Option<Vec<String>>,
    /// Where the share sheet points to (iPadOS and macOS).
    pub anchor: Option<ShareAnchor>,
}

/// Whether the current platform offers native sharing.
#[derive(Debug, Clone, Copy)]
pub struct CanShareResult {
    pub value: bool,
}

/// `s` is present and not empty.
pub open spec fn is_filled(s: Option<String>) -> bool {
    s matches Some(t) && t@.len() > 0
}

/// `v` is present and not empty.
pub open spec fn is_filled_list<T>(v: Option<Vec<T>>) -> bool {
    v matches Some(l) && l@.len() > 0
}

/// The request holds text, a URL, a file or a file path to share.
pub open spec fn shareable(o: ShareOptions) -> bool {
    ||| is_filled(o.text)
    ||| is_filled(o.url)
    ||| is_filled_list(o.files)
    ||| is_filled_list(o.file_paths)
}

/// Text and URL in one plain-text value: both joined by a line feed when
/// both are given, else whichever is given.
pub open spec fn joined_text(o: ShareOptions) -> Option<Seq<char>> {
    if is_filled(o.text) && is_filled(o.url) {
        Some(o.text.unwrap()@ + seq!['\n'] + o.url.unwrap()@)
    } else if is_filled(o.text) {
        Some(o.text.unwrap()@)
    } else if is_filled(o.url) {
        Some(o.url.unwrap()@)
    } else {
        None
    }
}

/// The limit check of one optional text field.
pub open spec fn field_verdict(field: Field, value: Option<Seq<char>>, max_bytes: usize) -> Result<
    (),
    Invalid,
> {
    match value {
        Some(s) => if utf8_len(s) > max_bytes {
            Err(Invalid::TooLong { field, max_bytes })
        } else {
            Ok(())
        },
        None => Ok(()),
    }
}

/// The view of an optional string.
pub open spec fn opt_view(s: Option<String>) -> Option<Seq<char>> {
    match s {
        Some(t) => Some(t@),
        None => None,
    }
}

/// The check of the file at position `index`; on success, the number of
/// bytes its data decodes to.
pub open spec fn file_verdict(f: SharedFile, index: int) -> Result<nat, Invalid> {
    if utf8_len(f.name@) > MAX_FILE_NAME_BYTES {
        Err(Invalid::TooLong { field: Field::FileName, max_bytes: MAX_FILE_NAME_BYTES })
    } else if utf8_len(f.mime_type@) > MAX_MIME_TYPE_BYTES {
        Err(Invalid::TooLong { field: Field::MimeType, max_bytes: MAX_MIME_TYPE_BYTES })
    } else {
        match base64_estimate(vstd::utf8::encode_utf8(f.data@)) {
            None => Err(Invalid::InvalidBase64),
            Some(n) => if n > MAX_FILE_BYTES {
                Err(Invalid::FileTooLarge { index: index as usize })
            } else {
                Ok(n)
            },
        }
    }
}

/// The files checked in order; on success, their total decoded size.
pub open spec fn files_total(fs: Seq<SharedFile>) -> Result<nat, Invalid>
    decreases fs.len(),
{
    if fs.len() == 0 {
        Ok(0)
    } else {
        match files_total(fs.drop_last()) {
            Err(e) => Err(e),
            Ok(t) => match file_verdict(fs.last(), fs.len() - 1) {
                Err(e) => Err(e),
                Ok(n) => Ok(t + n),
            },
        }
    }
}

/// The check of the file list.
pub open spec fn files_verdict(files: Option<Vec<SharedFile>>) -> Result<(), Invalid> {
    match files {
        None => Ok(()),
        Some(fs) => if fs@.len() > MAX_FILES {
            Err(Invalid::TooManyFiles)
        } else {
            match files_total(fs@) {
                Err(e) => Err(e),
                Ok(t) => if t > MAX_TOTAL_FILE_BYTES {
                    Err(Invalid::TotalTooLarge)
                } else {
                    Ok(())
                },
            }
        },
    }
}

/// The check of the URL: an empty or missing URL is not checked.
pub open spec fn url_verdict(url: Option<String>) -> Result<(), Invalid> {
    if is_filled(url) {
        let u = url.unwrap()@;
        if utf8_len(u) > MAX_URL_BYTES {
            Err(Invalid::TooLong { field: Field::Url, max_bytes: MAX_URL_BYTES })
        } else {
            web_url_verdict(u)
        }
    } else {
        Ok(())
    }
}

/// What validating a share request gives: the first failing check, in the
/// order text, title, URL, files.
pub open spec fn validation_verdict(o: ShareOptions) -> Result<(), Invalid> {
    let text = field_verdict(Field::Text, opt_view(o.text), MAX_TEXT_BYTES);
    let title = field_verdict(Field::Title, opt_view(o.title), MAX_TITLE_BYTES);
    if text is Err {
        text
    } else if title is Err {
        title
    } else if url_verdict(o.url) is Err {
        url_verdict(o.url)
    } else {
        files_verdict(o.files)
    }
}

/// `res` reports `verdict`: `Ok` for `Ok`, the same refusal for an error.
pub open spec fn reports(res: Result<(), Error>, verdict: Result<(), Invalid>) -> bool {
    match verdict {
        Ok(()) => res is Ok,
        Err(e) => res matches Err(Error::InvalidArgs(e2)) && e2 == e,
    }
}

/// Refuses a present value whose UTF-8 encoding is longer than `max_bytes`.
pub fn validate_optional_string(field: Field, value: Option<&str>, max_bytes: usize) -> (res:
    Result<(), Error>)
    ensures
        reports(
            res,
            field_verdict(
                field,
                match value {
                    Some(s) => Some(s@),
                    None => None,
                },
                max_bytes,
            ),
        ),
{
    if let Some(value) = value {
        if value.as_bytes().len() > max_bytes {
            return Err(Error::InvalidArgs(Invalid::TooLong { field, max_bytes }));
        }
    }
    Ok(())
}

fn as_opt_str(s: &Option<String>) -> (r: Option<&str>)
    ensures
        match r {
            Some(t) => opt_view(*s) == Some(t@),
            None => s is None,
        },
{
    match s {
        Some(t) => Some(t.as_str()),
        None => None,
    }
}

/// A failure of a prefix of the files is the failure of the whole list.
pub proof fn lemma_files_total_prefix_err(fs: Seq<SharedFile>, k: int)
    requires
        0 <= k <= fs.len(),
        files_total(fs.take(k)) is Err,
    ensures
        files_total(fs) == files_total(fs.take(k)),
    decreases fs.len(),
{
    if k == fs.len() {
        assert(fs.take(k) =~= fs);
    } else {
        assert(fs.drop_last().take(k) =~= fs.take(k));
        lemma_files_total_prefix_err(fs.drop_last(), k);
    }
}

/// The checked total of `fs` is at most `fs.len()` maximal files.
proof fn lemma_files_total_bound(fs: Seq<SharedFile>)
    ensures
        files_total(fs) matches Ok(t) ==> t <= fs.len() * MAX_FILE_BYTES,
    decreases fs.len(),
{
    if fs.len() > 0 {
        lemma_files_total_bound(fs.drop_last());
        let k: int = fs.len() - 1;
        assert(k * MAX_FILE_BYTES + MAX_FILE_BYTES == fs.len() * MAX_FILE_BYTES) by (nonlinear_arith)
            requires
                k == fs.len() - 1,
        ;
    }
}

fn validate_files(files: &Vec<SharedFile>) -> (res: Result<(), Error>)
    ensures
        reports(res, files_verdict(Some(*files))),
{
    if files.len() > MAX_FILES {
        return Err(Error::InvalidArgs(Invalid::TooManyFiles));
    }
    let mut total: usize = 0;
    let mut i: usize = 0;
    assert(files@.take(0) =~= Seq::<SharedFile>::empty());
    while i < files.len()
        invariant
            files.len() <= MAX_FILES,
            i <= files.len(),
            files_total(files@.take(i as int)) == Ok::<nat, Invalid>(total as nat),
        decreases files.len() - i,
    {
        let file = &files[i];
        let ghost next = files@.take(i + 1);
        assert(next.drop_last() =~= files@.take(i as int));
        assert(next.last() == *file);
        let name_check = validate_optional_string(
            Field::FileName,
            Some(file.name.as_str()),
            MAX_FILE_NAME_BYTES,
        );
        if name_check.is_err() {
            proof {
                lemma_files_total_prefix_err(files@, i + 1);
            }
            return name_check;
        }
        let mime_check = validate_optional_string(
            Field::MimeType,
            Some(file.mime_type.as_str()),
            MAX_MIME_TYPE_BYTES,
        );
        if mime_check.is_err() {
            proof {
                lemma_files_total_prefix_err(files@, i + 1);
            }
            return mime_check;
        }
        let estimated: usize = match estimate_base64_decoded_len(file.data.as_str()) {
            Ok(n) => n,
            Err(e) => {
                proof {
                    lemma_files_total_prefix_err(files@, i + 1);
                }
                return Err(e);
            },
        };
        if estimated > MAX_FILE_BYTES {
            proof {
                lemma_files_total_prefix_err(files@, i + 1);
            }
            return Err(Error::InvalidArgs(Invalid::FileTooLarge { index: i }));
        }
        proof {
            lemma_files_total_bound(next);
            assert(files_total(next) == Ok::<nat, Invalid>((total + estimated) as nat));
            let n: int = i + 1;
            assert(n * MAX_FILE_BYTES <= MAX_FILES * MAX_FILE_BYTES) by (nonlinear_arith)
                requires
                    n <= MAX_FILES,
            ;
        }
        total = match total.checked_add(estimated) {
            Some(t) => t,
            None => {
                return Err(Error::InvalidArgs(Invalid::TotalSizeOverflow));
            },
        };
        i = i + 1;
    }
    assert(files@.take(files.len() as int) =~= files@);
    if total > MAX_TOTAL_FILE_BYTES {
        return Err(Error::InvalidArgs(Invalid::TotalTooLarge));
    }
    Ok(())
}

impl ShareOptions {
    /// Whether the request holds at least one shareable value: text, a URL,
    /// a file or a file path.
    pub fn has_shareable_content(&self) -> (b: bool)
        ensures
            b == shareable(*self),
    {
        let text = match &self.text {
            Some(t) => !t.as_str().is_empty(),
            None => false,
        };
        let url = match &self.url {
            Some(u) => !u.as_str().is_empty(),
            None => false,
        };
        let files = match &self.files {
            Some(f) => f.len() > 0,
            None => false,
        };
        let paths = match &self.file_paths {
            Some(p) => p.len() > 0,
            None => false,
        };
        text || url || files || paths
    }

    /// Text and URL in one plain-text value, for platforms that share a
    /// single text field.
    pub fn combined_text(&self) -> (r: Option<String>)
        ensures
            match r {
                Some(c) => joined_text(*self) == Some(c@),
                None => joined_text(*self) is None,
            },
    {
        let text = match &self.text {
            Some(t) => if t.as_str().is_empty() {
                None
            } else {
                Some(t)
            },
            None => None,
        };
        let url = match &self.url {
            Some(u) => if u.as_str().is_empty() {
                None
            } else {
                Some(u)
            },
            None => None,
        };
        match (text, url) {
            (Some(t), Some(u)) => {
                let mut c = t.clone();
                c.append("\n");
                c.append(u.as_str());
                proof {
                    reveal_strlit("\n");
                }
                Some(c)
            },
            (Some(t), None) => Some(t.clone()),
            (None, Some(u)) => Some(u.clone()),
            (None, None) => None,
        }
    }

    /// Checks the payload against the size limits and the URL against the
    /// web-URL rules before native sharing.
    pub fn validate(&self) -> (res: Result<(), Error>)
        ensures
            reports(res, validation_verdict(*self)),
    {
        let text = validate_optional_string(Field::Text, as_opt_str(&self.text), MAX_TEXT_BYTES);
        if text.is_err() {
            return text;
        }
        let title = validate_optional_string(
            Field::Title,
            as_opt_str(&self.title),
            MAX_TITLE_BYTES,
        );
        if title.is_err() {
            return title;
        }
        if let Some(url) = &self.url {
            if !url.as_str().is_empty() {
                let len_check = validate_optional_string(
                    Field::Url,
                    Some(url.as_str()),
                    MAX_URL_BYTES,
                );
                if len_check.is_err() {
                    return len_check;
                }
                let web = validate_web_url(url.as_str());
                if web.is_err() {
                    return web;
                }
            }
        }
        if let Some(files) = &self.files {
            return validate_files(files);
        }
        Ok(())
    }
}

} // verus!
