use vstd::prelude::*;

use crate::base64_len::{base64_estimate, trailing_pad_count};
use crate::error::{Field, Invalid};
use crate::laws::{estimated_total, file_within_limits, lemma_files_total_iff};
use crate::models::{
    file_verdict, files_total, joined_text, lemma_files_total_prefix_err, shareable,
    validation_verdict, ShareOptions, SharedFile, MAX_FILES, MAX_FILE_BYTES, MAX_FILE_NAME_BYTES,
    MAX_MIME_TYPE_BYTES, MAX_TEXT_BYTES, MAX_TITLE_BYTES, MAX_TOTAL_FILE_BYTES, MAX_URL_BYTES,
};
use crate::platform::macos::{
    delegate_next, mac_subject, PickerEvent, ShareOutcome,
};
use crate::platform::windows::windows_text;
use crate::text::{is_control_char, is_whitespace_char, utf8_len};
use crate::url::{
    authority_of, host_of, host_port_of, lemma_scheme_separator_found, scheme_separator_from,
    web_url_verdict,
};

verus! {

/// The refusal a single file at position `index` draws, checked in the order
/// name, MIME type, Base64 shape, size.
pub open spec fn file_refusal(f: SharedFile, index: int) -> Invalid {
    if utf8_len(f.name@) > MAX_FILE_NAME_BYTES {
        Invalid::TooLong { field: Field::FileName, max_bytes: MAX_FILE_NAME_BYTES }
    } else if utf8_len(f.mime_type@) > MAX_MIME_TYPE_BYTES {
        Invalid::TooLong { field: Field::MimeType, max_bytes: MAX_MIME_TYPE_BYTES }
    } else if base64_estimate(vstd::utf8::encode_utf8(f.data@)) is None {
        Invalid::InvalidBase64
    } else {
        Invalid::FileTooLarge { index: index as usize }
    }
}

/// Validation reports the first failing check, in the order text, title,
/// URL length, URL form, number of files, each file in order (name, MIME
/// type, Base64 shape, size), total size.
#[verifier::rlimit(40)]
pub proof fn validation_reports_first_failed_check(o: ShareOptions)
    ensures
        ({
            let text_long = o.text matches Some(t) && utf8_len(t@) > MAX_TEXT_BYTES;
            let title_long = o.title matches Some(t) && utf8_len(t@) > MAX_TITLE_BYTES;
            let url_in = o.url matches Some(u) && u@.len() > 0;
            let u = o.url.unwrap()@;
            let url_long = url_in && utf8_len(u) > MAX_URL_BYTES;
            let url_bad = url_in && !url_long && web_url_verdict(u) is Err;
            let fields_ok = !text_long && !title_long && !url_long && !url_bad;
            let fs = o.files.unwrap()@;
            &&& text_long ==> validation_verdict(o) == Err::<(), Invalid>(
                Invalid::TooLong { field: Field::Text, max_bytes: MAX_TEXT_BYTES },
            )
            &&& !text_long && title_long ==> validation_verdict(o) == Err::<(), Invalid>(
                Invalid::TooLong { field: Field::Title, max_bytes: MAX_TITLE_BYTES },
            )
            &&& !text_long && !title_long && url_long ==> validation_verdict(o) == Err::<
                (),
                Invalid,
            >(Invalid::TooLong { field: Field::Url, max_bytes: MAX_URL_BYTES })
            &&& !text_long && !title_long && url_bad ==> validation_verdict(o) == web_url_verdict(u)
            &&& fields_ok && o.files is None ==> validation_verdict(o) is Ok
            &&& fields_ok && o.files is Some && fs.len() > MAX_FILES ==> validation_verdict(o)
                == Err::<(), Invalid>(Invalid::TooManyFiles)
            &&& forall|k: int|
                fields_ok && o.files is Some && fs.len() <= MAX_FILES && 0 <= k < fs.len() && (
                forall|j: int| 0 <= j < k ==> file_within_limits(#[trigger] fs[j]))
                    && !file_within_limits(#[trigger] fs[k]) ==> validation_verdict(o) == Err::<
                    (),
                    Invalid,
                >(file_refusal(fs[k], k))
            &&& fields_ok && o.files is Some && fs.len() <= MAX_FILES && (forall|j: int|
                0 <= j < fs.len() ==> file_within_limits(#[trigger] fs[j])) ==> validation_verdict(o)
                == (if estimated_total(fs) > MAX_TOTAL_FILE_BYTES {
                Err::<(), Invalid>(Invalid::TotalTooLarge)
            } else {
                Ok::<(), Invalid>(())
            })
        }),
{
    if let Some(files) = o.files {
        let fs = files@;
        lemma_files_total_iff(fs);
        assert forall|k: int|
            0 <= k < fs.len() && (forall|j: int| 0 <= j < k ==> file_within_limits(#[trigger] fs[j]))
                && !file_within_limits(#[trigger] fs[k]) implies files_total(fs) == Err::<
            nat,
            Invalid,
        >(file_refusal(fs[k], k)) by {
            let pre = fs.take(k);
            assert forall|j: int| 0 <= j < pre.len() implies file_within_limits(#[trigger] pre[j]) by {
                assert(pre[j] == fs[j]);
            }
            lemma_files_total_iff(pre);
            let next = fs.take(k + 1);
            assert(next.drop_last() =~= pre);
            assert(next.last() == fs[k]);
            assert(files_total(next) == Err::<nat, Invalid>(file_refusal(fs[k], k)));
            lemma_files_total_prefix_err(fs, k + 1);
        }
    }
}

/// A URL with a control or white-space character anywhere is refused as
/// malformed.
pub proof fn url_with_control_or_space_is_malformed(u: Seq<char>, i: int)
    requires
        0 <= i < u.len(),
        is_control_char(u[i]) || is_whitespace_char(u[i]),
    ensures
        web_url_verdict(u) == Err::<(), Invalid>(Invalid::MalformedUrl),
{
}

/// A URL without `://` is refused as not a web URL (when it is otherwise
/// free of control and white-space characters).
pub proof fn url_without_separator_is_unsupported(u: Seq<char>)
    requires
        forall|i: int|
            0 <= i < u.len() ==> !is_control_char(#[trigger] u[i]) && !is_whitespace_char(u[i]),
        forall|i: int| 0 <= i && i + 3 <= u.len() ==> !(u[i] == ':' && #[trigger] u[i + 1] == '/' && u[i + 2] == '/'),
    ensures
        web_url_verdict(u) == Err::<(), Invalid>(Invalid::UnsupportedUrl),
{
    lemma_scheme_separator_found(u, 0);
}

/// An accepted URL is an `http` or `https` scheme (any ASCII case), `://`,
/// and a rest whose host is not empty, not `[]` and does not start with `:`;
/// it holds no control or white-space character.
pub proof fn accepted_url_has_web_scheme_and_host(u: Seq<char>)
    requires
        web_url_verdict(u) is Ok,
    ensures
        forall|i: int|
            0 <= i < u.len() ==> !is_control_char(#[trigger] u[i]) && !is_whitespace_char(u[i]),
        exists|k: int|
            {
                &&& 0 <= k && k + 3 <= u.len()
                &&& u[k] == ':' && u[k + 1] == '/' && u[k + 2] == '/'
                &&& (crate::text::eq_ignore_ascii_case(
                    #[trigger] u.take(k),
                    seq!['h', 't', 't', 'p', 's'],
                ) || crate::text::eq_ignore_ascii_case(u.take(k), seq!['h', 't', 't', 'p']))
                &&& {
                    let h = host_of(host_port_of(authority_of(u.skip(k + 3))));
                    h.len() > 0 && h != seq!['[', ']'] && h[0] != ':'
                }
            },
{
    lemma_scheme_separator_found(u, 0);
    let k = scheme_separator_from(u, 0).unwrap();
    assert(crate::text::eq_ignore_ascii_case(u.take(k), seq!['h', 't', 't', 'p', 's'])
        || crate::text::eq_ignore_ascii_case(u.take(k), seq!['h', 't', 't', 'p']));
}

proof fn lemma_trailing_pads(c: Seq<u8>, p: nat)
    requires
        c.len() == 0 || c.last() != 0x3D,
    ensures
        trailing_pad_count(c + Seq::new(p, |i: int| 0x3Du8)) == p,
    decreases p,
{
    let b = c + Seq::new(p, |i: int| 0x3Du8);
    if p > 0 {
        assert(b.drop_last() =~= c + Seq::new((p - 1) as nat, |i: int| 0x3Du8));
        lemma_trailing_pads(c, (p - 1) as nat);
    } else {
        assert(b =~= c);
    }
}

/// The Base64 size estimate: empty text decodes to nothing; otherwise the
/// length must be a multiple of four and at most two `=` may end it, and
/// then each group of four gives three bytes, less one per `=`.
pub proof fn estimate_counts_groups_less_padding(c: Seq<u8>, p: nat)
    requires
        c.len() == 0 || c.last() != 0x3D,
    ensures
        ({
            let b = c + Seq::new(p, |i: int| 0x3Du8);
            &&& b.len() == 0 ==> base64_estimate(b) == Some(0nat)
            &&& b.len() > 0 && b.len() % 4 != 0 ==> base64_estimate(b) is None
            &&& b.len() > 0 && b.len() % 4 == 0 && p > 2 ==> base64_estimate(b) is None
            &&& b.len() > 0 && b.len() % 4 == 0 && p <= 2 ==> base64_estimate(b) == Some(
                (b.len() / 4 * 3 - p) as nat,
            )
        }),
{
    lemma_trailing_pads(c, p);
}

/// A request is shareable exactly when it has a non-empty text, a non-empty
/// URL, a non-empty list of files or a non-empty list of file paths.
pub proof fn shareable_exactly_with_some_content(o: ShareOptions)
    ensures
        shareable(o) <==> (o.text matches Some(t) && t@.len() > 0) || (o.url matches Some(u)
            && u@.len() > 0) || (o.files matches Some(f) && f@.len() > 0) || (
        o.file_paths matches Some(p) && p@.len() > 0),
{
}

/// The Windows text and web link: with both text and URL, the text and the
/// URL as web link when Windows parses it, else text, line feed and URL as
/// text; text alone only when not empty; a URL alone as web link when parsed,
/// else as text.
pub proof fn windows_text_cases(o: ShareOptions, uri_ok: bool)
    ensures
        o.text is Some && o.url is Some && uri_ok ==> windows_text(o, uri_ok) == (
            Some(o.text.unwrap()@),
            Some(o.url.unwrap()@),
        ),
        o.text is Some && o.url is Some && !uri_ok ==> windows_text(o, uri_ok) == (
            Some(o.text.unwrap()@ + seq!['\n'] + o.url.unwrap()@),
            None::<Seq<char>>,
        ),
        o.text is Some && o.url is None && o.text.unwrap()@.len() > 0 ==> windows_text(
            o,
            uri_ok,
        ) == (Some(o.text.unwrap()@), None::<Seq<char>>),
        o.text is Some && o.url is None && o.text.unwrap()@.len() == 0 ==> windows_text(
            o,
            uri_ok,
        ) == (None::<Seq<char>>, None::<Seq<char>>),
        o.text is None && o.url is Some && uri_ok ==> windows_text(o, uri_ok) == (
            None::<Seq<char>>,
            Some(o.url.unwrap()@),
        ),
        o.text is None && o.url is Some && !uri_ok ==> windows_text(o, uri_ok) == (
            Some(o.url.unwrap()@),
            None::<Seq<char>>,
        ),
        o.text is None && o.url is None ==> windows_text(o, uri_ok) == (
            None::<Seq<char>>,
            None::<Seq<char>>,
        ),
{
}

/// On macOS the subject is set only when files or file paths are shared,
/// and then it is the title when there is one, else the text.
pub proof fn macos_subject_is_title_else_text_with_files(o: ShareOptions)
    ensures
        ({
            let has_files = (o.files matches Some(f) && f@.len() > 0) || (
            o.file_paths matches Some(p) && p@.len() > 0);
            &&& !has_files ==> mac_subject(o) is None
            &&& has_files && o.title is Some ==> mac_subject(o) == Some(o.title.unwrap()@)
            &&& has_files && o.title is None && o.text is Some ==> mac_subject(o) == Some(
                o.text.unwrap()@,
            )
            &&& has_files && o.title is None && o.text is None ==> mac_subject(o) is None
        }),
{
}

/// The macOS delegate's step: choosing a service changes nothing; the picker
/// closing without a service and a successful share report completion, a
/// failed share reports failure, each only to a caller still waiting; every
/// such event ends the wait and releases the delegate.
pub proof fn delegate_step_reports_the_event(waiting: bool, event: PickerEvent)
    ensures
        event == PickerEvent::ServiceChosen ==> delegate_next(waiting, event).waiting == waiting
            && delegate_next(waiting, event).deliver is None && !delegate_next(
            waiting,
            event,
        ).release_delegate,
        event != PickerEvent::ServiceChosen ==> !delegate_next(waiting, event).waiting
            && delegate_next(waiting, event).release_delegate,
        !waiting ==> (delegate_next(waiting, event).deliver is None),
        waiting && (event == PickerEvent::ClosedWithoutService || event == PickerEvent::Shared)
            ==> delegate_next(waiting, event).deliver == Some(ShareOutcome::Completed),
        waiting && event == PickerEvent::Failed ==> delegate_next(waiting, event).deliver == Some(
            ShareOutcome::Failed,
        ),
{
}

} // verus!
