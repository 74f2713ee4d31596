use vstd::prelude::*;

use crate::text::{ascii_fold, eq_ignore_ascii_case, is_control_char, is_whitespace_char};
use crate::url::{
    authority_end_from, authority_of, char_index_from, host_of, host_port_of,
    last_char_index_before, scheme_separator_from, web_url_verdict,
};

verus! {

proof fn lemma_char_index_from(s: Seq<char>, c: char, i: int)
    requires
        0 <= i <= s.len(),
    ensures
        i <= char_index_from(s, c, i) <= s.len(),
        char_index_from(s, c, i) < s.len() ==> s[char_index_from(s, c, i)] == c,
        forall|k: int| i <= k < char_index_from(s, c, i) ==> s[k] != c,
    decreases s.len() - i,
{
    if i < s.len() && s[i] != c {
        lemma_char_index_from(s, c, i + 1);
    }
}

proof fn lemma_authority_end_from(s: Seq<char>, i: int)
    requires
        0 <= i <= s.len(),
    ensures
        i <= authority_end_from(s, i) <= s.len(),
        authority_end_from(s, i) < s.len() ==> {
            let c = s[authority_end_from(s, i)];
            c == '/' || c == '?' || c == '#'
        },
        forall|k: int|
            i <= k < authority_end_from(s, i) ==> s[k] != '/' && s[k] != '?' && s[k] != '#',
    decreases s.len() - i,
{
    if i < s.len() && !(s[i] == '/' || s[i] == '?' || s[i] == '#') {
        lemma_authority_end_from(s, i + 1);
    }
}

proof fn lemma_last_char_index(s: Seq<char>, c: char, i: int)
    requires
        0 <= i <= s.len(),
    ensures
        match last_char_index_before(s, c, i) {
            Some(k) => 0 <= k < i && s[k] == c && forall|j: int| k < j < i ==> s[j] != c,
            None => forall|j: int| 0 <= j < i ==> s[j] != c,
        },
    decreases i,
{
    if i > 0 && s[i - 1] != c {
        lemma_last_char_index(s, c, i - 1);
    }
}

/// The authority of what follows `://` is its longest prefix free of `/`,
/// `?` and `#`.
pub proof fn authority_is_longest_prefix_without_delimiters(r: Seq<char>)
    ensures
        authority_of(r).len() <= r.len(),
        authority_of(r) =~= r.take(authority_of(r).len() as int),
        forall|k: int|
            0 <= k < authority_of(r).len() ==> #[trigger] authority_of(r)[k] != '/'
                && authority_of(r)[k] != '?' && authority_of(r)[k] != '#',
        authority_of(r).len() < r.len() ==> {
            let c = r[authority_of(r).len() as int];
            c == '/' || c == '?' || c == '#'
        },
{
    lemma_authority_end_from(r, 0);
}

/// The host and port are what follows the authority's last `@` (all of the
/// authority when it has none).
pub proof fn host_port_is_text_after_last_at(a: Seq<char>)
    ensures
        host_port_of(a).len() <= a.len(),
        host_port_of(a) =~= a.skip(a.len() - host_port_of(a).len()),
        forall|k: int| 0 <= k < host_port_of(a).len() ==> #[trigger] host_port_of(a)[k] != '@',
        host_port_of(a).len() < a.len() ==> a[a.len() - host_port_of(a).len() - 1] == '@',
{
    lemma_last_char_index(a, '@', a.len() as int);
    let hp = host_port_of(a);
    assert forall|k: int| 0 <= k < hp.len() implies #[trigger] hp[k] != '@' by {
        assert(hp[k] == a[a.len() - hp.len() + k]);
    }
}

/// The host is, when the host-and-port holds a `]`, everything up to and
/// including its first `]`; otherwise everything before its first `:`.
pub proof fn host_is_bracketed_literal_or_name_before_colon(hp: Seq<char>)
    ensures
        host_of(hp).len() <= hp.len(),
        host_of(hp) =~= hp.take(host_of(hp).len() as int),
        (exists|k: int| 0 <= k < hp.len() && hp[k] == ']') ==> {
            &&& host_of(hp).len() > 0
            &&& host_of(hp)[host_of(hp).len() - 1] == ']'
            &&& forall|k: int| 0 <= k < host_of(hp).len() - 1 ==> #[trigger] host_of(hp)[k] != ']'
        },
        (forall|k: int| 0 <= k < hp.len() ==> hp[k] != ']') ==> {
            &&& forall|k: int| 0 <= k < host_of(hp).len() ==> #[trigger] host_of(hp)[k] != ':'
            &&& host_of(hp).len() < hp.len() ==> hp[host_of(hp).len() as int] == ':'
        },
{
    lemma_char_index_from(hp, ']', 0);
    lemma_char_index_from(hp, ':', 0);
    let b = char_index_from(hp, ']', 0);
    if exists|k: int| 0 <= k < hp.len() && hp[k] == ']' {
        let k = choose|k: int| 0 <= k < hp.len() && hp[k] == ']';
        assert(b < hp.len());
    }
}

proof fn lemma_separator_at_end_of_scheme(u: Seq<char>, k: int, i: int)
    requires
        0 <= i <= k,
        k + 3 <= u.len(),
        u[k] == ':' && u[k + 1] == '/' && u[k + 2] == '/',
        forall|j: int| 0 <= j < k ==> u[j] != ':',
    ensures
        scheme_separator_from(u, i) == Some(k),
    decreases k - i,
{
    if i < k {
        lemma_separator_at_end_of_scheme(u, k, i + 1);
    }
}

/// A URL is split at its first `://`: when `u` is an `http` or `https`
/// scheme (any ASCII case), then `://`, then `r`, holds no control or
/// white-space character, and the host of `r` is not empty, not `[]` and does
/// not start with `:`, the URL is accepted, whatever `r` holds after its
/// authority (another `://` included).
pub proof fn url_is_split_at_first_separator(u: Seq<char>, s: Seq<char>, r: Seq<char>)
    requires
        u == s + seq![':', '/', '/'] + r,
        eq_ignore_ascii_case(s, seq!['h', 't', 't', 'p', 's']) || eq_ignore_ascii_case(
            s,
            seq!['h', 't', 't', 'p'],
        ),
        forall|i: int|
            0 <= i < u.len() ==> !is_control_char(#[trigger] u[i]) && !is_whitespace_char(u[i]),
        host_of(host_port_of(authority_of(r))).len() > 0,
        host_of(host_port_of(authority_of(r))) != seq!['[', ']'],
        host_of(host_port_of(authority_of(r)))[0] != ':',
    ensures
        web_url_verdict(u) is Ok,
{
    let k = s.len() as int;
    assert forall|j: int| 0 <= j < k implies u[j] != ':' by {
        assert(u[j] == s[j]);
        if eq_ignore_ascii_case(s, seq!['h', 't', 't', 'p', 's']) {
            assert(ascii_fold(s[j]) == ascii_fold(seq!['h', 't', 't', 'p', 's'][j]));
        } else {
            assert(ascii_fold(s[j]) == ascii_fold(seq!['h', 't', 't', 'p'][j]));
        }
    }
    assert(u[k] == ':' && u[k + 1] == '/' && u[k + 2] == '/');
    lemma_separator_at_end_of_scheme(u, k, 0);
    assert(u.take(k) =~= s);
    assert(u.skip(k + 3) =~= r);
}

} // verus!
