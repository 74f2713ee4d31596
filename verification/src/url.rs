use vstd::prelude::*;

use crate::error::{Error, Invalid};
use crate::text::{
    chars_eq_ignore_ascii_case, chars_of, eq_ignore_ascii_case, is_control, is_control_char,
    is_whitespace, is_whitespace_char, slice_chars,
};

verus! {

/// Some character of `u` is a control or white-space character. (White space
/// at either end of a URL is such a character too, so a URL that trimming
/// would change is covered.)
pub open spec fn has_forbidden_char(u: Seq<char>) -> bool {
    exists|i: int| 0 <= i < u.len() && (is_control_char(#[trigger] u[i]) || is_whitespace_char(u[i]))
}

/// Position of the first `"://"` in `u` at or after `i`.
pub open spec fn scheme_separator_from(u: Seq<char>, i: int) -> Option<int>
    decreases u.len() - i,
{
    if i < 0 || i + 3 > u.len() {
        None
    } else if u[i] == ':' && u[i + 1] == '/' && u[i + 2] == '/' {
        Some(i)
    } else {
        scheme_separator_from(u, i + 1)
    }
}

/// A character that ends the authority part of a URL.
pub open spec fn is_authority_end(c: char) -> bool {
    c == '/' || c == '?' || c == '#'
}

/// Position of the first authority-ending character of `s` at or after `i`,
/// or `s.len()` when there is none.
pub open spec fn authority_end_from(s: Seq<char>, i: int) -> int
    decreases s.len() - i,
{
    if i < 0 || i >= s.len() {
        s.len() as int
    } else if is_authority_end(s[i]) {
        i
    } else {
        authority_end_from(s, i + 1)
    }
}

/// Position of the first `c` in `s` at or after `i`, or `s.len()` when there is none.
pub open spec fn char_index_from(s: Seq<char>, c: char, i: int) -> int
    decreases s.len() - i,
{
    if i < 0 || i >= s.len() {
        s.len() as int
    } else if s[i] == c {
        i
    } else {
        char_index_from(s, c, i + 1)
    }
}

/// Position of the last `c` in `s` before position `i`.
pub open spec fn last_char_index_before(s: Seq<char>, c: char, i: int) -> Option<int>
    decreases i,
{
    if i <= 0 || i > s.len() {
        None
    } else if s[i - 1] == c {
        Some(i - 1)
    } else {
        last_char_index_before(s, c, i - 1)
    }
}

/// A `c` found before `i` lies before `i` and is `c`.
pub proof fn lemma_last_char_index_bound(s: Seq<char>, c: char, i: int)
    ensures
        last_char_index_before(s, c, i) matches Some(k) ==> 0 <= k < i && s[k] == c,
    decreases i,
{
    if !(i <= 0 || i > s.len()) && s[i - 1] != c {
        lemma_last_char_index_bound(s, c, i - 1);
    }
}

/// The authority of a URL, given what follows its `"://"`: everything up to
/// the first `/`, `?` or `#`.
pub open spec fn authority_of(rest: Seq<char>) -> Seq<char> {
    rest.take(authority_end_from(rest, 0))
}

/// The authority without its user information: what follows its last `@`.
pub open spec fn host_port_of(authority: Seq<char>) -> Seq<char> {
    match last_char_index_before(authority, '@', authority.len() as int) {
        Some(k) => authority.skip(k + 1),
        None => authority,
    }
}

/// The host: up to and including the first `]` when there is one (a
/// bracketed IPv6 literal), otherwise everything before the first `:`.
pub open spec fn host_of(host_port: Seq<char>) -> Seq<char> {
    let b = char_index_from(host_port, ']', 0);
    if b < host_port.len() {
        host_port.take(b + 1)
    } else {
        host_port.take(char_index_from(host_port, ':', 0))
    }
}

/// A host that can be shared: not empty, not `[]`, not starting with `:`.
pub open spec fn is_acceptable_host(h: Seq<char>) -> bool {
    &&& h.len() > 0
    &&& h != seq!['[', ']']
    &&& h[0] != ':'
}

/// `http` or `https`, in any ASCII case. (Compared character by character;
/// for these ASCII words that is the same as comparing the UTF-8 bytes.)
pub open spec fn is_web_scheme(s: Seq<char>) -> bool {
    ||| eq_ignore_ascii_case(s, seq!['h', 't', 't', 'p', 's'])
    ||| eq_ignore_ascii_case(s, seq!['h', 't', 't', 'p'])
}

/// The host of `u` when `u` is `scheme://authority...` with a web scheme.
pub open spec fn web_url_host(u: Seq<char>) -> Option<Seq<char>> {
    match scheme_separator_from(u, 0) {
        Some(i) => if is_web_scheme(u.take(i)) {
            Some(host_of(host_port_of(authority_of(u.skip(i + 3)))))
        } else {
            None
        },
        None => None,
    }
}

/// What checking `u` as a shareable web URL gives.
pub open spec fn web_url_verdict(u: Seq<char>) -> Result<(), Invalid> {
    if has_forbidden_char(u) {
        Err(Invalid::MalformedUrl)
    } else {
        match web_url_host(u) {
            Some(h) => if is_acceptable_host(h) {
                Ok(())
            } else {
                Err(Invalid::UnsupportedUrl)
            },
            None => Err(Invalid::UnsupportedUrl),
        }
    }
}

/// A separator found from `i` on lies at or after `i`, within `u`, and is `://`.
pub proof fn lemma_scheme_separator_found(u: Seq<char>, i: int)
    ensures
        scheme_separator_from(u, i) matches Some(k) ==> i <= k && k + 3 <= u.len() && u[k]
            == ':' && u[k + 1] == '/' && u[k + 2] == '/',
    decreases u.len() - i,
{
    if !(i < 0 || i + 3 > u.len()) && !(u[i] == ':' && u[i + 1] == '/' && u[i + 2] == '/') {
        lemma_scheme_separator_found(u, i + 1);
    }
}

fn find_scheme_separator(v: &Vec<char>) -> (r: Option<usize>)
    ensures
        match r {
            Some(k) => scheme_separator_from(v@, 0) == Some(k as int) && k + 3 <= v.len(),
            None => scheme_separator_from(v@, 0) is None,
        },
{
    let mut i: usize = 0;
    while i < v.len() && v.len() - i >= 3
        invariant
            i <= v.len(),
            scheme_separator_from(v@, 0) == scheme_separator_from(v@, i as int),
        decreases v.len() - i,
    {
        if v[i] == ':' && v[i + 1] == '/' && v[i + 2] == '/' {
            proof {
                lemma_scheme_separator_found(v@, 0);
            }
            return Some(i);
        }
        i = i + 1;
    }
    None
}

fn find_authority_end(v: &Vec<char>) -> (r: usize)
    ensures
        r == authority_end_from(v@, 0),
        r <= v.len(),
{
    let mut i: usize = 0;
    while i < v.len()
        invariant
            i <= v.len(),
            authority_end_from(v@, 0) == authority_end_from(v@, i as int),
        decreases v.len() - i,
    {
        if v[i] == '/' || v[i] == '?' || v[i] == '#' {
            return i;
        }
        i = i + 1;
    }
    i
}

fn find_char(v: &Vec<char>, c: char) -> (r: usize)
    ensures
        r == char_index_from(v@, c, 0),
        r <= v.len(),
{
    let mut i: usize = 0;
    while i < v.len()
        invariant
            i <= v.len(),
            char_index_from(v@, c, 0) == char_index_from(v@, c, i as int),
        decreases v.len() - i,
    {
        if v[i] == c {
            return i;
        }
        i = i + 1;
    }
    i
}

fn find_last_char(v: &Vec<char>, c: char) -> (r: Option<usize>)
    ensures
        match r {
            Some(k) => last_char_index_before(v@, c, v@.len() as int) == Some(k as int) && k
                < v.len(),
            None => last_char_index_before(v@, c, v@.len() as int) is None,
        },
{
    let mut i: usize = v.len();
    while i > 0
        invariant
            i <= v.len(),
            last_char_index_before(v@, c, v@.len() as int) == last_char_index_before(
                v@,
                c,
                i as int,
            ),
        decreases i,
    {
        if v[i - 1] == c {
            return Some(i - 1);
        }
        i = i - 1;
    }
    None
}

/// Checks that `url` is a well-formed `http://` or `https://` URL with a host.
pub fn validate_web_url(url: &str) -> (res: Result<(), Error>)
    ensures
        match web_url_verdict(url@) {
            Ok(()) => res is Ok,
            Err(e) => res matches Err(Error::InvalidArgs(e2)) && e2 == e,
        },
{
    let cs = chars_of(url);
    let mut i: usize = 0;
    while i < cs.len()
        invariant
            cs@ == url@,
            i <= cs.len(),
            forall|j: int|
                0 <= j < i ==> !(is_control_char(#[trigger] cs@[j]) || is_whitespace_char(cs@[j])),
        decreases cs.len() - i,
    {
        if is_control(cs[i]) || is_whitespace(cs[i]) {
            return Err(Error::InvalidArgs(Invalid::MalformedUrl));
        }
        i = i + 1;
    }
    let sep: usize = match find_scheme_separator(&cs) {
        Some(k) => k,
        None => {
            return Err(Error::InvalidArgs(Invalid::UnsupportedUrl));
        },
    };
    let scheme = slice_chars(&cs, 0, sep);
    let https = vec!['h', 't', 't', 'p', 's'];
    let http = vec!['h', 't', 't', 'p'];
    assert(https@ == seq!['h', 't', 't', 'p', 's']);
    assert(http@ == seq!['h', 't', 't', 'p']);
    if chars_eq_ignore_ascii_case(&scheme, &https) || chars_eq_ignore_ascii_case(&scheme, &http) {
        let rest = slice_chars(&cs, sep + 3, cs.len());
        let end: usize = find_authority_end(&rest);
        let authority = slice_chars(&rest, 0, end);
        let host_port = match find_last_char(&authority, '@') {
            Some(k) => slice_chars(&authority, k + 1, authority.len()),
            None => authority,
        };
        let b = find_char(&host_port, ']');
        let host = if b < host_port.len() {
            slice_chars(&host_port, 0, b + 1)
        } else {
            let colon: usize = find_char(&host_port, ':');
            slice_chars(&host_port, 0, colon)
        };
        assert(host@ == web_url_host(url@).unwrap());
        if host.len() > 0 && !(host.len() == 2 && host[0] == '[' && host[1] == ']') && host[0]
            != ':' {
            return Ok(());
        }
        if host.len() == 2 && host[0] == '[' && host[1] == ']' {
            assert(host@ =~= seq!['[', ']']);
        }
    }
    Err(Error::InvalidArgs(Invalid::UnsupportedUrl))
}

} // verus!
