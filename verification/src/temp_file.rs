use vstd::prelude::*;

use base64::Engine;

use crate::error::{Error, Invalid};
use crate::models::{opt_view, SharedFile, MAX_FILE_BYTES};
use crate::url::{last_char_index_before, lemma_last_char_index_bound};

verus! {

/// What the `STANDARD` engine of the `base64` crate (standard alphabet,
/// canonical padding required) decodes the text `data` to, or `None` where it
/// reports an error.
pub uninterp spec fn base64_standard_decode(data: Seq<char>) -> Option<Seq<u8>>;

/// Decodes `data` with `base64::engine::general_purpose::STANDARD.decode`.
/// Claimed: the result is `base64_standard_decode` of the text, `None` where
/// the crate returns a `DecodeError`.
#[verifier::external_body]
fn decode_base64_standard(data: &str) -> (r: Option<Vec<u8>>)
    ensures
        match r {
            Some(v) => base64_standard_decode(data@) == Some(v@),
            None => base64_standard_decode(data@) is None,
        },
{
    base64::engine::general_purpose::STANDARD.decode(data).ok()
}

/// `c` occurs in `s` as a contiguous run of characters.
pub open spec fn is_part_of(c: Seq<char>, s: Seq<char>) -> bool {
    exists|i: int| 0 <= i && i + c.len() <= s.len() && #[trigger] s.subrange(i, i + c.len()) == c
}

/// A name that is a path of one plain component on every platform: not
/// empty, not `.` or `..`, and free of `/`, `\` and `:`.
pub open spec fn is_plain_file_name(s: Seq<char>) -> bool {
    &&& s.len() > 0
    &&& s != seq!['.']
    &&& s != seq!['.', '.']
    &&& forall|i: int| 0 <= i < s.len() ==> #[trigger] s[i] != '/' && s[i] != '\\' && s[i] != ':'
}

/// A Windows verbatim path: one that starts with `\\?\`.
pub open spec fn is_verbatim_path(s: Seq<char>) -> bool {
    s.len() >= 4 && s[0] == '\\' && s[1] == '\\' && s[2] == '?' && s[3] == '\\'
}

/// A path that every platform splits the same way: on `/` alone, with no
/// prefix. It holds no `\` and no `:`, and does not start with `//` (which
/// Windows reads as the start of a network share).
pub open spec fn is_simple_path(s: Seq<char>) -> bool {
    &&& forall|i: int| 0 <= i < s.len() ==> #[trigger] s[i] != '\\' && s[i] != ':'
    &&& !(s.len() >= 2 && s[0] == '/' && s[1] == '/')
}

/// The last segment of `s[..end]` between `/` separators that is neither
/// empty nor `.` (empty segments and `.` are not components of a path).
pub open spec fn last_plain_segment(s: Seq<char>, end: int) -> Option<Seq<char>>
    decreases end,
{
    if end <= 0 || end > s.len() {
        None
    } else {
        let sep = last_char_index_before(s, '/', end);
        let start = match sep {
            Some(k) => k + 1,
            None => 0,
        };
        let seg = s.subrange(start, end);
        if seg.len() > 0 && seg != seq!['.'] {
            Some(seg)
        } else {
            match sep {
                Some(k) => {
                    proof {
                        lemma_last_char_index_bound(s, '/', end);
                    }
                    last_plain_segment(s, k)
                },
                None => None,
            }
        }
    }
}

/// The final component of a simple path: its last segment that is neither
/// empty nor `.`; none when there is no such segment or it is `..`.
pub open spec fn simple_final_component(s: Seq<char>) -> Option<Seq<char>> {
    match last_plain_segment(s, s.len() as int) {
        Some(seg) => if seg == seq!['.', '.'] {
            None
        } else {
            Some(seg)
        },
        None => None,
    }
}

/// The final component of the path `path`, as `std::path::Path::file_name`
/// gives it, converted to text (a component of a path made from text is
/// always valid text).
/// Claimed, from the documented path rules: a returned component is a normal
/// component of the path, so it is a non-empty run of the path's characters
/// and is neither `.` nor `..` (`None` where the path ends in `..`); `/`
/// separates components on every platform except in Windows verbatim
/// (`\\?\`) paths, so outside those a component holds no `/`; a simple path
/// (see [`is_simple_path`]) is split on `/` alone, repeated separators and
/// `.` segments being ignored, so its final component is
/// [`simple_final_component`]. Which component is returned for other paths
/// follows the platform's rules (on Windows `\` separates components too and
/// prefixes such as `C:` are recognised); that is not stated.
#[verifier::external_body]
pub(crate) fn final_path_component(path: &str) -> (r: Option<String>)
    ensures
        r matches Some(c) ==> c@.len() > 0 && c@ != seq!['.'] && c@ != seq!['.', '.']
            && is_part_of(c@, path@),
        is_plain_file_name(path@) ==> r is Some && r.unwrap()@ == path@,
        !is_verbatim_path(path@) ==> (r matches Some(c) ==> !c@.contains('/')),
        is_simple_path(path@) ==> opt_view(r) == simple_final_component(path@),
{
    std::path::Path::new(path).file_name().and_then(|c| c.to_str()).map(|c| c.to_string())
}

/// The decoded content of a shared file and the bare file name to store it under.
#[derive(Debug)]
pub struct DecodedFile {
    pub bytes: Vec<u8>,
    pub file_name: String,
}

/// Accepts a file whose data decoded to `decoded` (`None`: not valid Base64)
/// and whose name has the final component `file_name`.
pub fn accept_decoded_file(decoded: Option<Vec<u8>>, file_name: Option<String>) -> (res: Result<
    DecodedFile,
    Error,
>)
    ensures
        match decoded {
            None => res matches Err(Error::InvalidArgs(Invalid::InvalidBase64)),
            Some(b) => if b@.len() > MAX_FILE_BYTES {
                res matches Err(Error::InvalidArgs(Invalid::DecodedFileTooLarge))
            } else {
                match file_name {
                    None => res matches Err(Error::InvalidArgs(Invalid::InvalidFileName)),
                    Some(n) => res matches Ok(d) && d.bytes@ == b@ && d.file_name@ == n@,
                }
            },
        },
{
    let bytes = match decoded {
        Some(b) => b,
        None => {
            return Err(Error::InvalidArgs(Invalid::InvalidBase64));
        },
    };
    if bytes.len() > MAX_FILE_BYTES {
        return Err(Error::InvalidArgs(Invalid::DecodedFileTooLarge));
    }
    match file_name {
        Some(n) => Ok(DecodedFile { bytes, file_name: n }),
        None => Err(Error::InvalidArgs(Invalid::InvalidFileName)),
    }
}

/// Decodes a shared file's Base64 data and reduces its name to the final
/// path component, so that no directory part of the name is used: the kept
/// name never holds a `/` (outside Windows verbatim paths), and for a simple
/// path it is exactly the last segment after the last `/`.
pub fn decode_shared_file(file: &SharedFile) -> (res: Result<DecodedFile, Error>)
    ensures
        match base64_standard_decode(file.data@) {
            None => res matches Err(Error::InvalidArgs(Invalid::InvalidBase64)),
            Some(b) => if b.len() > MAX_FILE_BYTES {
                res matches Err(Error::InvalidArgs(Invalid::DecodedFileTooLarge))
            } else {
                match res {
                    Ok(d) => d.bytes@ == b,
                    Err(e) => e matches Error::InvalidArgs(Invalid::InvalidFileName),
                }
            },
        },
        res matches Ok(d) ==> d.file_name@.len() > 0 && d.file_name@ != seq!['.']
            && d.file_name@ != seq!['.', '.'] && is_part_of(d.file_name@, file.name@),
        (base64_standard_decode(file.data@) is Some && base64_standard_decode(
            file.data@,
        ).unwrap().len() <= MAX_FILE_BYTES && is_plain_file_name(file.name@)) ==> (res matches Ok(
            d,
        ) && d.bytes@ == base64_standard_decode(file.data@).unwrap() && d.file_name@
            == file.name@),
        !is_verbatim_path(file.name@) ==> (res matches Ok(d) ==> !d.file_name@.contains('/')),
        (base64_standard_decode(file.data@) is Some && base64_standard_decode(
            file.data@,
        ).unwrap().len() <= MAX_FILE_BYTES && is_simple_path(file.name@)) ==> match simple_final_component(
            file.name@,
        ) {
            Some(n) => res matches Ok(d) && d.file_name@ == n,
            None => res matches Err(Error::InvalidArgs(Invalid::InvalidFileName)),
        },
{
    let decoded = decode_base64_standard(file.data.as_str());
    let name = final_path_component(file.name.as_str());
    accept_decoded_file(decoded, name)
}

} // verus!
