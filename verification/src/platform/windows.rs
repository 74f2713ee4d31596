use vstd::prelude::*;

use crate::error::Error;
use crate::models::{CanShareResult, ShareOptions};
use crate::temp_file::{
    final_path_component, is_part_of, is_plain_file_name, is_simple_path, is_verbatim_path,
    simple_final_component,
};
use crate::text::{chars_of, string_from_chars};

verus! {

/// Windows always offers the share UI.
pub fn can_share() -> (res: Result<CanShareResult, Error>)
    ensures
        res matches Ok(r) && r.value,
{
    Ok(CanShareResult { value: true })
}

/// The title used when the request has none and neither a file path nor a
/// file gives one.
pub open spec fn default_share_title() -> Seq<char> {
    seq!['S', 'h', 'a', 'r', 'e', 'd', ' ', 'c', 'o', 'n', 't', 'e', 'n', 't']
}

/// The title of a Windows share: the request's title; else `first_path_name`,
/// the name taken from the first file path; else the first file's name; else
/// [`default_share_title`].
pub open spec fn windows_title(o: ShareOptions, first_path_name: Option<Seq<char>>) -> Seq<char> {
    match o.title {
        Some(t) => t@,
        None => match first_path_name {
            Some(n) => n,
            None => match o.files {
                Some(fs) => if fs@.len() > 0 {
                    fs@[0].name@
                } else {
                    default_share_title()
                },
                None => default_share_title(),
            },
        },
    }
}

/// The title of a Windows share, given the name taken from the first file
/// path (`None` when there is no path or it has no final component).
pub fn share_title_from(options: &ShareOptions, first_path_name: Option<String>) -> (title: String)
    ensures
        title@ == windows_title(
            *options,
            match first_path_name {
                Some(n) => Some(n@),
                None => None,
            },
        ),
{
    if let Some(t) = &options.title {
        return t.clone();
    }
    if let Some(n) = first_path_name {
        return n;
    }
    if let Some(files) = &options.files {
        if files.len() > 0 {
            return files[0].name.clone();
        }
    }
    let d = String::from_str("Shared content");
    proof {
        reveal_strlit("Shared content");
    }
    assert(d@ =~= default_share_title());
    d
}

/// The title of a Windows share; a name drawn from the first file path is the
/// final component of that path: the path itself when it is a plain name,
/// its last segment after `/` when it is a simple path, and otherwise a
/// non-empty run of its characters that is not `.` or `..` and (outside
/// verbatim paths) holds no `/`.
pub fn share_title(options: &ShareOptions) -> (title: String)
    ensures
        options.title matches Some(t) ==> title@ == t@,
        options.title is None && !(options.file_paths matches Some(ps) && ps@.len() > 0)
            ==> title@ == windows_title(*options, None),
        options.title is None && (options.file_paths matches Some(ps) && ps@.len() > 0
            && is_plain_file_name(ps@[0]@)) ==> title@ == options.file_paths.unwrap()@[0]@,
        options.title is None && (options.file_paths matches Some(ps) && ps@.len() > 0) ==> (
        title@ == windows_title(*options, None) || (title@.len() > 0 && title@ != seq!['.']
            && title@ != seq!['.', '.'] && is_part_of(title@, options.file_paths.unwrap()@[0]@))),
        options.title is None && (options.file_paths matches Some(ps) && ps@.len() > 0
            && is_simple_path(ps@[0]@)) ==> title@ == windows_title(
            *options,
            simple_final_component(options.file_paths.unwrap()@[0]@),
        ),
        options.title is None && (options.file_paths matches Some(ps) && ps@.len() > 0
            && !is_verbatim_path(ps@[0]@)) ==> (title@ == windows_title(*options, None)
            || !title@.contains('/')),
{
    let first_path_name = match &options.file_paths {
        Some(paths) => if paths.len() > 0 {
            final_path_component(paths[0].as_str())
        } else {
            None
        },
        None => None,
    };
    share_title_from(options, first_path_name)
}

/// What goes into the Windows data package besides files: the plain text and
/// the web link.
#[derive(Debug)]
pub struct TextPlan {
    pub text: Option<String>,
    pub web_link: Option<String>,
}

/// The plain text and web link of a Windows share, where `uri_ok` is whether
/// Windows could parse the URL. A URL that cannot be parsed travels as text:
/// after the text and a line feed when there is text, alone otherwise. Text
/// alone is set only when not empty.
pub open spec fn windows_text(o: ShareOptions, uri_ok: bool) -> (
    Option<Seq<char>>,
    Option<Seq<char>>,
) {
    match (o.text, o.url) {
        (Some(t), Some(u)) => if uri_ok {
            (Some(t@), Some(u@))
        } else {
            (Some(t@ + seq!['\n'] + u@), None)
        },
        (Some(t), None) => if t@.len() > 0 {
            (Some(t@), None)
        } else {
            (None, None)
        },
        (None, Some(u)) => if uri_ok {
            (None, Some(u@))
        } else {
            (Some(u@), None)
        },
        (None, None) => (None, None),
    }
}

/// Plans the text and web link of a Windows share.
pub fn text_plan(options: &ShareOptions, uri_ok: bool) -> (plan: TextPlan)
    ensures
        windows_text(*options, uri_ok) == (
            match plan.text {
                Some(t) => Some(t@),
                None => None,
            },
            match plan.web_link {
                Some(u) => Some(u@),
                None => None,
            },
        ),
{
    match (&options.text, &options.url) {
        (Some(t), Some(u)) => if uri_ok {
            TextPlan { text: Some(t.clone()), web_link: Some(u.clone()) }
        } else {
            let mut c = t.clone();
            c.append("\n");
            c.append(u.as_str());
            proof {
                reveal_strlit("\n");
            }
            TextPlan { text: Some(c), web_link: None }
        },
        (Some(t), None) => if t.as_str().is_empty() {
            TextPlan { text: None, web_link: None }
        } else {
            TextPlan { text: Some(t.clone()), web_link: None }
        },
        (None, Some(u)) => if uri_ok {
            TextPlan { text: None, web_link: Some(u.clone()) }
        } else {
            TextPlan { text: Some(u.clone()), web_link: None }
        },
        (None, None) => TextPlan { text: None, web_link: None },
    }
}

/// `p` with every `/` turned into `\`.
pub open spec fn with_backslashes(p: Seq<char>) -> Seq<char> {
    p.map_values(|c: char| if c == '/' { '\\' } else { c })
}

/// The non-empty paths of `ps`, in order, with Windows separators.
pub open spec fn storage_paths_of(ps: Seq<Seq<char>>) -> Seq<Seq<char>>
    decreases ps.len(),
{
    if ps.len() == 0 {
        seq![]
    } else {
        let rest = storage_paths_of(ps.drop_last());
        if ps.last().len() == 0 {
            rest
        } else {
            rest.push(with_backslashes(ps.last()))
        }
    }
}

/// Rewrites `path` with Windows separators.
pub fn to_backslashes(path: &str) -> (out: String)
    ensures
        out@ == with_backslashes(path@),
        !out@.contains('/'),
{
    let cs = chars_of(path);
    let mut out: Vec<char> = Vec::new();
    let mut i: usize = 0;
    while i < cs.len()
        invariant
            cs@ == path@,
            i <= cs.len(),
            out@ =~= with_backslashes(cs@.take(i as int)),
        decreases cs.len() - i,
    {
        let c = cs[i];
        if c == '/' {
            out.push('\\');
        } else {
            out.push(c);
        }
        assert(cs@.take(i + 1) =~= cs@.take(i as int).push(c));
        i = i + 1;
    }
    assert(cs@.take(cs.len() as int) =~= cs@);
    let s = string_from_chars(&out);
    assert(!s@.contains('/')) by {
        if s@.contains('/') {
            let k: int = choose|k: int| 0 <= k < s@.len() && s@[k] == '/';
            assert(s@[k] == with_backslashes(path@)[k]);
        }
    }
    s
}

/// The file paths handed to the Windows storage API: empty paths are skipped,
/// the others get Windows separators.
pub fn storage_paths(file_paths: &Vec<String>) -> (out: Vec<String>)
    ensures
        out@.map_values(|s: String| s@) =~= storage_paths_of(
            file_paths@.map_values(|s: String| s@),
        ),
{
    let ghost ps = file_paths@.map_values(|s: String| s@);
    let mut out: Vec<String> = Vec::new();
    let mut i: usize = 0;
    while i < file_paths.len()
        invariant
            ps == file_paths@.map_values(|s: String| s@),
            i <= file_paths.len(),
            out@.map_values(|s: String| s@) =~= storage_paths_of(ps.take(i as int)),
        decreases file_paths.len() - i,
    {
        let ghost before = out@;
        assert(ps.take(i + 1).drop_last() =~= ps.take(i as int));
        assert(ps.take(i + 1).last() == file_paths@[i as int]@);
        let p = file_paths[i].as_str();
        if !p.is_empty() {
            let w = to_backslashes(p);
            out.push(w);
            assert(out@ =~= before.push(w));
            assert(out@.map_values(|s: String| s@) =~= before.map_values(|s: String| s@).push(
                w@,
            ));
        }
        i = i + 1;
    }
    assert(ps.take(file_paths.len() as int) =~= ps);
    out
}

} // verus!
