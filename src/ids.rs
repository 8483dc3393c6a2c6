//! Identifier helpers: canonical URIs (`at://<actor>/<collection>/<rkey>`)
//! and actor identifiers (`did:plc:...`).

use vstd::prelude::*;
use vstd::string::*;

verus! {

/// The URI scheme prefix of a canonical URI.
pub open spec fn at_prefix() -> Seq<char> {
    seq!['a', 't', ':', '/', '/']
}

/// The prefix of an identifier of the `plc` method.
pub open spec fn did_plc_prefix() -> Seq<char> {
    seq!['d', 'i', 'd', ':', 'p', 'l', 'c', ':']
}

pub open spec fn has_prefix(s: Seq<char>, p: Seq<char>) -> bool {
    p.len() <= s.len() && s.subrange(0, p.len() as int) == p
}

/// Index of the first `c` in `s` at or after `i`, or `s.len()` when none.
pub open spec fn find_from(s: Seq<char>, c: char, i: int) -> int
    decreases s.len() - i,
{
    if i < 0 || i >= s.len() {
        s.len() as int
    } else if s[i] == c {
        i
    } else {
        find_from(s, c, i + 1)
    }
}

pub proof fn lemma_find_from_bounds(s: Seq<char>, c: char, i: int)
    requires
        0 <= i <= s.len(),
    ensures
        i <= find_from(s, c, i) <= s.len(),
        find_from(s, c, i) < s.len() ==> s[find_from(s, c, i)] == c,
        forall|k: int| i <= k < find_from(s, c, i) ==> s[k] != c,
    decreases s.len() - i,
{
    if i < s.len() && s[i] != c {
        lemma_find_from_bounds(s, c, i + 1);
    }
}

/// The actor part of a canonical URI: what follows `at://` up to the next `/`.
pub open spec fn did_of_at_uri(s: Seq<char>) -> Option<Seq<char>> {
    if has_prefix(s, at_prefix()) {
        let rest = s.subrange(5, s.len() as int);
        Some(rest.subrange(0, find_from(rest, '/', 0)))
    } else {
        None
    }
}

/// The three `/`-separated parts of a canonical URI after `at://`, when
/// there are exactly three and none is empty.
pub open spec fn valid_at_uri(s: Seq<char>) -> bool {
    has_prefix(s, at_prefix()) && {
        let rest = s.subrange(5, s.len() as int);
        let a = find_from(rest, '/', 0);
        let b = find_from(rest, '/', a + 1);
        &&& 0 < a < rest.len()
        &&& a + 1 < b < rest.len()
        &&& b + 1 < rest.len()
        &&& find_from(rest, '/', b + 1) == rest.len()
    }
}

/// `at://<actor>/<collection>/<rkey>`.
pub open spec fn canonical_uri_of(actor: Seq<char>, collection: Seq<char>, rkey: Seq<char>) -> Seq<char> {
    at_prefix() + actor + seq!['/'] + collection + seq!['/'] + rkey
}

/// Whether `s` begins with `p`.
pub fn starts_with(s: &str, p: &str) -> (r: bool)
    ensures
        r == has_prefix(s@, p@),
{
    let n = s.unicode_len();
    let m = p.unicode_len();
    if m > n {
        return false;
    }
    let mut i: usize = 0;
    while i < m
        invariant
            m <= n,
            n == s@.len(),
            m == p@.len(),
            i <= m,
            forall|k: int| 0 <= k < i ==> s@[k] == p@[k],
        decreases m - i,
    {
        if s.get_char(i) != p.get_char(i) {
            assert(s@.subrange(0, m as int)[i as int] != p@[i as int]);
            return false;
        }
        i = i + 1;
    }
    assert(s@.subrange(0, m as int) =~= p@);
    true
}

/// Index of the first `c` in `s` at or after `from`, or the length of `s`.
pub fn find_char_from(s: &str, c: char, from: usize) -> (r: usize)
    requires
        from <= s@.len(),
    ensures
        r == find_from(s@, c, from as int),
{
    let n = s.unicode_len();
    let mut i = from;
    while i < n
        invariant
            n == s@.len(),
            from <= i <= n,
            find_from(s@, c, from as int) == find_from(s@, c, i as int),
        decreases n - i,
    {
        if s.get_char(i) == c {
            return i;
        }
        i = i + 1;
    }
    i
}

/// The actor of a canonical URI, or `None` when `at_uri` lacks the `at://` prefix.
pub fn extract_did_from_at_uri(at_uri: &str) -> (r: Option<&str>)
    ensures
        r matches Some(d) ==> did_of_at_uri(at_uri@) == Some(d@),
        r is None ==> did_of_at_uri(at_uri@) is None,
{
    proof {
        reveal_strlit("at://");
        assert("at://"@ =~= at_prefix());
    }
    if !starts_with(at_uri, "at://") {
        return None;
    }
    let n = at_uri.unicode_len();
    let rest = at_uri.substring_char(5, n);
    let end = find_char_from(rest, '/', 0);
    proof {
        lemma_find_from_bounds(rest@, '/', 0);
    }
    Some(rest.substring_char(0, end))
}

/// Whether `did` is a `did:plc:` identifier longer than ten bytes.
pub fn is_valid_did(did: &str) -> (r: bool)
    ensures
        r == (has_prefix(did@, did_plc_prefix()) && did.len() > 10),
{
    proof {
        reveal_strlit("did:plc:");
        assert("did:plc:"@ =~= did_plc_prefix());
    }
    starts_with(did, "did:plc:") && did.len() > 10
}

/// Whether `uri` has the form `at://<actor>/<collection>/<rkey>` with three
/// non-empty parts.
pub fn is_valid_at_uri(uri: &str) -> (r: bool)
    ensures
        r == valid_at_uri(uri@),
{
    proof {
        reveal_strlit("at://");
        assert("at://"@ =~= at_prefix());
    }
    if !starts_with(uri, "at://") {
        return false;
    }
    let n = uri.unicode_len();
    let rest = uri.substring_char(5, n);
    let len = n - 5;
    let a = find_char_from(rest, '/', 0);
    proof {
        lemma_find_from_bounds(rest@, '/', 0);
    }
    if a == 0 || a >= len {
        return false;
    }
    let b = find_char_from(rest, '/', a + 1);
    proof {
        lemma_find_from_bounds(rest@, '/', a + 1);
    }
    if b <= a + 1 || b >= len || b + 1 >= len {
        return false;
    }
    let c = find_char_from(rest, '/', b + 1);
    c == len
}

/// Builds the canonical URI `at://<actor>/<collection>/<rkey>`.
pub fn canonical_uri(actor: &str, collection: &str, rkey: &str) -> (r: String)
    ensures
        r@ == canonical_uri_of(actor@, collection@, rkey@),
{
    proof {
        reveal_strlit("at://");
        reveal_strlit("/");
    }
    let mut s = String::from_str("at://");
    s.append(actor);
    s.append("/");
    s.append(collection);
    s.append("/");
    s.append(rkey);
    s
}

/// The first `max_len - 3` characters of `s` followed by `...`, or `s`
/// itself when it has at most `max_len` characters.
pub open spec fn truncated(s: Seq<char>, max_len: nat) -> Seq<char> {
    if s.len() <= max_len {
        s
    } else {
        let keep = if max_len >= 3 { max_len - 3 } else { 0 };
        s.subrange(0, keep as int) + seq!['.', '.', '.']
    }
}

/// Shortens `s` to at most `max_len` characters, marking the cut with `...`.
pub fn truncate_with_ellipsis(s: &str, max_len: usize) -> (r: String)
    ensures
        r@ == truncated(s@, max_len as nat),
{
    proof {
        reveal_strlit("...");
    }
    let n = s.unicode_len();
    if n <= max_len {
        return String::from_str(s);
    }
    let keep = max_len.saturating_sub(3);
    let mut r = String::from_str(s.substring_char(0, keep));
    r.append("...");
    r
}

} // verus!
