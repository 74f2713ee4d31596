use vstd::prelude::*;

use crate::base64_len::base64_estimate;
use crate::error::Invalid;
use crate::models::{
    file_verdict, files_total, is_filled, is_filled_list, joined_text, shareable,
    validation_verdict, ShareOptions, SharedFile, MAX_FILES, MAX_FILE_BYTES, MAX_FILE_NAME_BYTES,
    MAX_MIME_TYPE_BYTES, MAX_TEXT_BYTES, MAX_TITLE_BYTES, MAX_TOTAL_FILE_BYTES, MAX_URL_BYTES,
};
use crate::platform::macos::{delegate_next, mac_has_files, mac_items, MacItem, PickerEvent};
use crate::platform::windows::{storage_paths_of, windows_title, with_backslashes};
use crate::text::{ascii_fold, eq_ignore_ascii_case, utf8_len};
use crate::url::{
    has_forbidden_char, is_web_scheme, lemma_scheme_separator_found, scheme_separator_from,
    web_url_verdict,
};

verus! {

/// The number of bytes the Base64 data of a file is estimated to decode to
/// (zero where there is no estimate).
pub open spec fn file_estimate(f: SharedFile) -> nat {
    match base64_estimate(vstd::utf8::encode_utf8(f.data@)) {
        Some(n) => n,
        None => 0,
    }
}

/// Sum of the estimated decoded sizes of `fs`.
pub open spec fn estimated_total(fs: Seq<SharedFile>) -> nat
    decreases fs.len(),
{
    if fs.len() == 0 {
        0
    } else {
        estimated_total(fs.drop_last()) + file_estimate(fs.last())
    }
}

/// A file within the limits: short name and MIME type, well-shaped Base64
/// data of at most [`MAX_FILE_BYTES`] decoded bytes.
pub open spec fn file_within_limits(f: SharedFile) -> bool {
    &&& utf8_len(f.name@) <= MAX_FILE_NAME_BYTES
    &&& utf8_len(f.mime_type@) <= MAX_MIME_TYPE_BYTES
    &&& base64_estimate(vstd::utf8::encode_utf8(f.data@)) matches Some(n) && n <= MAX_FILE_BYTES
}

/// A request within every published limit, with a shareable web URL if any.
pub open spec fn within_limits(o: ShareOptions) -> bool {
    &&& (o.text matches Some(t) ==> utf8_len(t@) <= MAX_TEXT_BYTES)
    &&& (o.title matches Some(t) ==> utf8_len(t@) <= MAX_TITLE_BYTES)
    &&& (is_filled(o.url) ==> utf8_len(o.url.unwrap()@) <= MAX_URL_BYTES && web_url_verdict(
        o.url.unwrap()@,
    ) is Ok)
    &&& (o.files matches Some(fs) ==> {
        &&& fs@.len() <= MAX_FILES
        &&& forall|i: int| 0 <= i < fs@.len() ==> file_within_limits(#[trigger] fs@[i])
        &&& estimated_total(fs@) <= MAX_TOTAL_FILE_BYTES
    })
}

pub proof fn lemma_files_total_iff(fs: Seq<SharedFile>)
    ensures
        files_total(fs) is Ok <==> forall|i: int|
            0 <= i < fs.len() ==> file_within_limits(#[trigger] fs[i]),
        files_total(fs) matches Ok(t) ==> t == estimated_total(fs),
    decreases fs.len(),
{
    if fs.len() > 0 {
        let init = fs.drop_last();
        lemma_files_total_iff(init);
        if files_total(fs) is Ok {
            assert forall|i: int| 0 <= i < fs.len() implies file_within_limits(#[trigger] fs[i]) by {
                if i < fs.len() - 1 {
                    assert(init[i] == fs[i]);
                }
            }
        }
        if forall|i: int| 0 <= i < fs.len() ==> file_within_limits(#[trigger] fs[i]) {
            assert forall|i: int| 0 <= i < init.len() implies file_within_limits(
                #[trigger] init[i],
            ) by {
                assert(init[i] == fs[i]);
            }
            assert(file_within_limits(fs[fs.len() - 1]));
        }
    }
}

/// Validation accepts a request exactly when it is within the limits: at
/// most 64 KiB of text, 1 KiB of title, a well-formed `http(s)` URL of at most
/// 4 KiB, at most 16 files with names and MIME types of at most 255 bytes,
/// each decoding to at most 50 MiB and all together to at most 100 MiB.
pub proof fn validation_accepts_exactly_requests_within_limits(o: ShareOptions)
    ensures
        validation_verdict(o) is Ok <==> within_limits(o),
{
    if let Some(fs) = o.files {
        lemma_files_total_iff(fs@);
    }
}

/// An accepted URL holds no control or white-space character and begins
/// with `http://` or `https://`, letters in any ASCII case.
pub proof fn accepted_url_is_web_url(u: Seq<char>)
    requires
        web_url_verdict(u) is Ok,
    ensures
        !has_forbidden_char(u),
        eq_ignore_ascii_case(u.take(7), seq!['h', 't', 't', 'p', ':', '/', '/'])
            || eq_ignore_ascii_case(u.take(8), seq!['h', 't', 't', 'p', 's', ':', '/', '/']),
{
    lemma_scheme_separator_found(u, 0);
    let i: int = scheme_separator_from(u, 0).unwrap();
    assert(is_web_scheme(u.take(i)));
    if i == 5 {
        let lit = seq!['h', 't', 't', 'p', 's', ':', '/', '/'];
        assert forall|m: int| 0 <= m < 8 implies ascii_fold(#[trigger] u.take(8)[m]) == ascii_fold(
            lit[m],
        ) by {
            if m < 5 {
                assert(u.take(8)[m] == u.take(i)[m]);
                assert(ascii_fold(u.take(i)[m]) == ascii_fold(
                    seq!['h', 't', 't', 'p', 's'][m],
                ));
            }
        }
    } else {
        let lit = seq!['h', 't', 't', 'p', ':', '/', '/'];
        assert forall|m: int| 0 <= m < 7 implies ascii_fold(#[trigger] u.take(7)[m]) == ascii_fold(
            lit[m],
        ) by {
            if m < 4 {
                assert(u.take(7)[m] == u.take(i)[m]);
                assert(ascii_fold(u.take(i)[m]) == ascii_fold(seq!['h', 't', 't', 'p'][m]));
            }
        }
    }
}

/// Joining text and URL keeps both: the text starts the joined value and the
/// URL ends it; there is a joined value exactly when text or URL is given.
pub proof fn joined_text_keeps_text_and_url(o: ShareOptions)
    ensures
        joined_text(o) is Some <==> is_filled(o.text) || is_filled(o.url),
        joined_text(o) matches Some(c) ==> {
            &&& is_filled(o.text) ==> c.take(o.text.unwrap()@.len() as int) =~= o.text.unwrap()@
            &&& is_filled(o.url) ==> c.skip(c.len() - o.url.unwrap()@.len()) =~= o.url.unwrap()@
        },
{
}

/// A request has shareable content exactly when it has a joined text (from
/// text or URL), a file, or a file path: a list of file paths alone counts.
pub proof fn shareable_iff_text_or_files(o: ShareOptions)
    ensures
        shareable(o) <==> joined_text(o) is Some || is_filled_list(o.files) || is_filled_list(
            o.file_paths,
        ),
{
}

proof fn lemma_files_total_no_overflow(fs: Seq<SharedFile>)
    ensures
        files_total(fs) != Err::<nat, Invalid>(Invalid::TotalSizeOverflow),
    decreases fs.len(),
{
    if fs.len() > 0 {
        lemma_files_total_no_overflow(fs.drop_last());
    }
}

/// Adding up the file sizes never overflows: validation never reports it.
pub proof fn validation_never_reports_size_overflow(o: ShareOptions)
    ensures
        validation_verdict(o) != Err::<(), Invalid>(Invalid::TotalSizeOverflow),
{
    if let Some(fs) = o.files {
        lemma_files_total_no_overflow(fs@);
    }
}

/// The paths handed to the Windows storage API are never empty and never
/// hold a `/`.
pub proof fn storage_paths_are_filled_and_use_backslashes(ps: Seq<Seq<char>>)
    ensures
        forall|i: int|
            0 <= i < storage_paths_of(ps).len() ==> #[trigger] storage_paths_of(ps)[i].len() > 0
                && !storage_paths_of(ps)[i].contains('/'),
    decreases ps.len(),
{
    if ps.len() > 0 {
        storage_paths_are_filled_and_use_backslashes(ps.drop_last());
        let last = ps.last();
        if last.len() > 0 {
            let w = with_backslashes(last);
            assert(!w.contains('/')) by {
                if w.contains('/') {
                    let k: int = choose|k: int| 0 <= k < w.len() && w[k] == '/';
                    assert(w[k] == (if last[k] == '/' { '\\' } else { last[k] }));
                }
            }
            assert(w.len() == last.len());
            let rest = storage_paths_of(ps.drop_last());
            assert forall|i: int| 0 <= i < storage_paths_of(ps).len() implies #[trigger] storage_paths_of(
                ps,
            )[i].len() > 0 && !storage_paths_of(ps)[i].contains('/') by {
                if i < rest.len() {
                    assert(storage_paths_of(ps)[i] == rest[i]);
                }
            }
        }
    }
}

/// On macOS, a request that carries files shares only its files and file
/// paths: its text and URL are not shared as items.
pub proof fn macos_files_exclude_text_and_url(o: ShareOptions, url_parses: bool)
    requires
        mac_has_files(o),
    ensures
        forall|i: int|
            0 <= i < mac_items(o, url_parses).len() ==> !(#[trigger] mac_items(
                o,
                url_parses,
            )[i] is Url) && !(mac_items(o, url_parses)[i] is Text),
{
    let files: Seq<MacItem> = match o.files {
        Some(fs) => Seq::new(fs@.len(), |i: int| MacItem::File(i)),
        None => seq![],
    };
    let paths: Seq<MacItem> = match o.file_paths {
        Some(ps) => ps@.map_values(|p: String| MacItem::Path(p@)),
        None => seq![],
    };
    let lead: Seq<MacItem> = seq![];
    assert(mac_items(o, url_parses) =~= lead + files + paths);
    assert forall|i: int| 0 <= i < mac_items(o, url_parses).len() implies !(#[trigger] mac_items(
        o,
        url_parses,
    )[i] is Url) && !(mac_items(o, url_parses)[i] is Text) by {
        if i < files.len() {
            assert(mac_items(o, url_parses)[i] == files[i]);
        } else {
            assert(mac_items(o, url_parses)[i] == paths[i - files.len()]);
        }
    }
}

/// The macOS delegate hands the caller at most one outcome: once an event
/// has delivered one, no later event delivers another, and the delegate is
/// released by the event that ends the share.
pub proof fn delegate_reports_at_most_once(waiting: bool, first: PickerEvent, later: PickerEvent)
    ensures
        delegate_next(waiting, first).deliver is Some ==> delegate_next(
            delegate_next(waiting, first).waiting,
            later,
        ).deliver is None,
        first != PickerEvent::ServiceChosen ==> delegate_next(waiting, first).release_delegate,
{
}

/// Combining text and URL gives exactly: text, a line feed and the URL when
/// both are non-empty; the text alone when only it is non-empty (a missing
/// or empty URL adds nothing); the URL alone when only it is non-empty;
/// nothing otherwise.
pub proof fn combined_text_is_text_line_feed_url(o: ShareOptions)
    ensures
        ({
            let text_in = o.text matches Some(t) && t@.len() > 0;
            let url_in = o.url matches Some(u) && u@.len() > 0;
            &&& text_in && url_in ==> joined_text(o) == Some(
                o.text.unwrap()@ + seq!['\n'] + o.url.unwrap()@,
            )
            &&& text_in && !url_in ==> joined_text(o) == Some(o.text.unwrap()@)
            &&& !text_in && url_in ==> joined_text(o) == Some(o.url.unwrap()@)
            &&& !text_in && !url_in ==> joined_text(o) is None
        }),
{
}

/// The Windows title is the request's title; else the name drawn from the
/// first file path; else the first file's name; else "Shared content".
pub proof fn windows_title_falls_back_in_order(o: ShareOptions, first_path_name: Option<Seq<char>>)
    ensures
        o.title matches Some(t) ==> windows_title(o, first_path_name) == t@,
        o.title is None && first_path_name is Some ==> windows_title(o, first_path_name)
            == first_path_name.unwrap(),
        o.title is None && first_path_name is None && (o.files matches Some(fs) && fs@.len() > 0)
            ==> windows_title(o, first_path_name) == o.files.unwrap()@[0].name@,
        o.title is None && first_path_name is None && !(o.files matches Some(fs) && fs@.len() > 0)
            ==> windows_title(o, first_path_name) == seq![
            'S',
            'h',
            'a',
            'r',
            'e',
            'd',
            ' ',
            'c',
            'o',
            'n',
            't',
            'e',
            'n',
            't',
        ],
{
}

/// Rewriting with Windows separators keeps the length and every character
/// but `/`, which becomes `\`.
pub proof fn backslashes_replace_only_slashes(p: Seq<char>)
    ensures
        with_backslashes(p).len() == p.len(),
        forall|k: int|
            0 <= k < p.len() ==> #[trigger] with_backslashes(p)[k] == (if p[k] == '/' {
                '\\'
            } else {
                p[k]
            }),
{
}

/// Every non-empty file path reaches the Windows storage API, in order and
/// with Windows separators; only empty paths are left out.
pub proof fn storage_paths_keep_every_filled_path(ps: Seq<Seq<char>>)
    ensures
        storage_paths_of(ps) =~= ps.filter(|p: Seq<char>| p.len() > 0).map_values(
            |p: Seq<char>| with_backslashes(p),
        ),
    decreases ps.len(),
{
    reveal_with_fuel(Seq::filter, 1);
    if ps.len() > 0 {
        storage_paths_keep_every_filled_path(ps.drop_last());
    }
}

/// What macOS shares. Without files or file paths: the URL when it is
/// non-empty and `NSURL` accepted it, then the text when it is non-empty,
/// whatever the other field holds; the request is refused as empty exactly
/// when neither is shared. With files or file paths: every file, in order,
/// then every file path, in order, and nothing else.
pub proof fn macos_items_follow_request(o: ShareOptions, url_parses: bool)
    ensures
        ({
            let nf = match o.files {
                Some(fs) => fs@.len(),
                None => 0,
            };
            let np = match o.file_paths {
                Some(ps) => ps@.len(),
                None => 0,
            };
            let has_files = nf > 0 || np > 0;
            let text_in = o.text matches Some(t) && t@.len() > 0;
            let url_in = o.url matches Some(u) && u@.len() > 0 && url_parses;
            let items = mac_items(o, url_parses);
            &&& !has_files && text_in ==> items.contains(MacItem::Text(o.text.unwrap()@))
            &&& !has_files && url_in ==> items[0] == MacItem::Url(o.url.unwrap()@)
            &&& !has_files ==> items.len() == (if text_in {
                1int
            } else {
                0
            }) + (if url_in {
                1int
            } else {
                0
            })
            &&& (items.len() == 0 <==> !has_files && !text_in && !url_in)
            &&& has_files ==> items.len() == nf + np
            &&& has_files ==> forall|i: int| 0 <= i < nf ==> #[trigger] items[i] == MacItem::File(i)
            &&& has_files ==> forall|j: int|
                0 <= j < np ==> #[trigger] items[nf + j] == MacItem::Path(
                    o.file_paths.unwrap()@[j]@,
                )
        }),
{
    let items = mac_items(o, url_parses);
    if o.text matches Some(t) && t@.len() > 0 {
        if !mac_has_files(o) {
            let k = items.len() - 1;
            assert(items[k] == MacItem::Text(o.text.unwrap()@));
        }
    }
}

} // verus!
