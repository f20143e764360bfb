//! Syntactic validation of site identifiers.
//!
//! An acceptable site identifier has the shape `[scheme://]host.tld[/path]`:
//! an optional `http://` or `https://` scheme, a non-empty host made of
//! ASCII word characters and dots, a top-level domain of two to six
//! lowercase letters optionally followed by a trailing dot, and an optional
//! path that starts with `/` and contains no whitespace. The check is
//! purely syntactic; nothing is resolved.

use vstd::prelude::*;

verus! {

/// ASCII word character: a letter, a digit, or an underscore.
pub open spec fn is_word_char(c: char) -> bool {
    ('a' <= c && c <= 'z') || ('A' <= c && c <= 'Z') || ('0' <= c && c <= '9') || c == '_'
}

/// Characters allowed in the host part: word characters and dots.
pub open spec fn is_host_char(c: char) -> bool {
    is_word_char(c) || c == '.'
}

/// Lowercase ASCII letter, the only kind allowed in the tld part.
pub open spec fn is_lower_char(c: char) -> bool {
    'a' <= c && c <= 'z'
}

/// ASCII whitespace, forbidden anywhere in the path part.
pub open spec fn is_space_char(c: char) -> bool {
    c == ' ' || c == '\t' || c == '\n' || c == '\r' || c == '\u{b}' || c == '\u{c}'
}

/// The characters of the `http://` scheme prefix.
pub open spec fn http_prefix() -> Seq<char> {
    seq!['h', 't', 't', 'p', ':', '/', '/']
}

/// The characters of the `https://` scheme prefix.
pub open spec fn https_prefix() -> Seq<char> {
    seq!['h', 't', 't', 'p', 's', ':', '/', '/']
}

/// The scheme part of a split at `i`: absent, or exactly one of the two
/// accepted prefixes.
pub open spec fn scheme_split(s: Seq<char>, i: int) -> bool {
    &&& 0 <= i <= s.len()
    &&& (i == 0 || (i == 7 && s.subrange(0, 7) == http_prefix()) || (i == 8 && s.subrange(
        0,
        8,
    ) == https_prefix()))
}

/// The domain `host.tld`, with `t` the tld length and `b` one exactly when
/// a dot trails the tld: a non-empty host of word characters and dots, a
/// separating dot, and `t` lowercase letters.
pub open spec fn domain_split(d: Seq<char>, t: int, b: int) -> bool {
    let n = d.len() as int;
    &&& 2 <= t <= 6
    &&& (b == 0 || b == 1)
    &&& n >= t + b + 2
    &&& (b == 1 ==> d[n - 1] == '.')
    &&& d[n - b - t - 1] == '.'
    &&& (forall|j: int| n - b - t <= j < n - b ==> is_lower_char(d[j]))
    &&& (forall|j: int| 0 <= j < n - b - t - 1 ==> is_host_char(d[j]))
}

/// A well-formed domain part, for some tld length and trailing dot choice.
pub open spec fn domain_matches(d: Seq<char>) -> bool {
    exists|t: int, b: int| domain_split(d, t, b)
}

/// A well-formed path part: absent, or a slash followed by anything but
/// whitespace.
pub open spec fn path_matches(p: Seq<char>) -> bool {
    p.len() == 0 || (p[0] == '/' && forall|j: int| 1 <= j < p.len() ==> !is_space_char(p[j]))
}

/// Everything after the scheme: split at some `q` into a domain and a path.
pub open spec fn tail_matches(s: Seq<char>, i: int) -> bool {
    exists|q: int|
        i <= q <= s.len() && domain_matches(s.subrange(i, q)) && path_matches(
            s.subrange(q, s.len() as int),
        )
}

/// An acceptable site identifier: `[scheme://]host.tld[/path]`.
pub open spec fn site_matches(s: Seq<char>) -> bool {
    exists|i: int| scheme_split(s, i) && tail_matches(s, i)
}

fn lower_char(c: char) -> (r: bool)
    ensures
        r == is_lower_char(c),
{
    'a' <= c && c <= 'z'
}

fn host_char(c: char) -> (r: bool)
    ensures
        r == is_host_char(c),
{
    ('a' <= c && c <= 'z') || ('A' <= c && c <= 'Z') || ('0' <= c && c <= '9') || c == '_' || c
        == '.'
}

fn space_char(c: char) -> (r: bool)
    ensures
        r == is_space_char(c),
{
    c == ' ' || c == '\t' || c == '\n' || c == '\r' || c == '\u{b}' || c == '\u{c}'
}

fn scan_lower(site: &str, from: usize, to: usize) -> (r: bool)
    requires
        from <= to <= site@.len(),
    ensures
        r == (forall|j: int| from <= j < to ==> is_lower_char(site@[j])),
{
    let mut k = from;
    while k < to
        invariant
            from <= k <= to <= site@.len(),
            forall|j: int| from <= j < k ==> is_lower_char(site@[j]),
        decreases to - k,
    {
        if !lower_char(site.get_char(k)) {
            return false;
        }
        k = k + 1;
    }
    true
}

fn scan_host(site: &str, from: usize, to: usize) -> (r: bool)
    requires
        from <= to <= site@.len(),
    ensures
        r == (forall|j: int| from <= j < to ==> is_host_char(site@[j])),
{
    let mut k = from;
    while k < to
        invariant
            from <= k <= to <= site@.len(),
            forall|j: int| from <= j < k ==> is_host_char(site@[j]),
        decreases to - k,
    {
        if !host_char(site.get_char(k)) {
            return false;
        }
        k = k + 1;
    }
    true
}

fn scan_nonspace(site: &str, from: usize, to: usize) -> (r: bool)
    requires
        from <= to <= site@.len(),
    ensures
        r == (forall|j: int| from <= j < to ==> !is_space_char(site@[j])),
{
    let mut k = from;
    while k < to
        invariant
            from <= k <= to <= site@.len(),
            forall|j: int| from <= j < k ==> !is_space_char(site@[j]),
        decreases to - k,
    {
        if space_char(site.get_char(k)) {
            return false;
        }
        k = k + 1;
    }
    true
}

/// Decide whether the domain slice `site[i..q]` is a well-formed domain.
fn domain_check(site: &str, i: usize, q: usize) -> (r: bool)
    requires
        i <= q <= site@.len(),
    ensures
        r == domain_matches(site@.subrange(i as int, q as int)),
{
    let ghost d = site@.subrange(i as int, q as int);
    let ghost n = q - i;
    if q - i < 4 {
        proof {
            if domain_matches(d) {
                let (t2, b2) = choose|t2: int, b2: int| domain_split(d, t2, b2);
            }
        }
        return false;
    }
    let b: usize = if site.get_char(q - 1) == '.' {
        1
    } else {
        0
    };
    let e = q - b;
    assert(d[n - 1] == site@[q - 1]);
    let mut t: usize = 2;
    while t <= 6
        invariant
            2 <= t <= 7,
            i + 4 <= q <= site@.len(),
            d == site@.subrange(i as int, q as int),
            n == q - i,
            b == 1 <==> d[n - 1] == '.',
            b == 0 || b == 1,
            e == q - b,
            forall|t2: int| 2 <= t2 < t ==> !domain_split(d, t2, b as int),
        decreases 7 - t,
    {
        if e - i >= t + 2 {
            let dot_ok = site.get_char(e - t - 1) == '.';
            let low_ok = scan_lower(site, e - t, e);
            let host_ok = scan_host(site, i, e - t - 1);
            if dot_ok && low_ok && host_ok {
                proof {
                    assert(d[n - b - t - 1] == site@[e - t - 1]);
                    assert forall|j: int| n - b - t <= j < n - b implies is_lower_char(d[j]) by {
                        assert(d[j] == site@[i + j]);
                    }
                    assert forall|j: int| 0 <= j < n - b - t - 1 implies is_host_char(d[j]) by {
                        assert(d[j] == site@[i + j]);
                    }
                    assert(domain_split(d, t as int, b as int));
                }
                return true;
            }
            proof {
                if domain_split(d, t as int, b as int) {
                    assert(site@[e - t - 1] == d[n - b - t - 1]);
                    assert forall|j: int| e - t <= j < e implies is_lower_char(site@[j]) by {
                        assert(site@[j] == d[j - i]);
                    }
                    assert forall|j: int| i <= j < e - t - 1 implies is_host_char(site@[j]) by {
                        assert(site@[j] == d[j - i]);
                    }
                }
            }
        }
        t = t + 1;
    }
    proof {
        if domain_matches(d) {
            let (t2, b2) = choose|t2: int, b2: int| domain_split(d, t2, b2);
            if b2 == 1 {
                assert(d[n - 1] == '.');
            } else {
                assert(is_lower_char(d[n - 1]));
            }
            assert(!domain_split(d, t2, b as int));
        }
    }
    false
}

/// Decide whether `site[q..]` is a well-formed path part.
fn path_check(site: &str, q: usize, n: usize) -> (r: bool)
    requires
        q <= n,
        n == site@.len(),
    ensures
        r == path_matches(site@.subrange(q as int, site@.len() as int)),
{
    let ghost p = site@.subrange(q as int, site@.len() as int);
    if q == n {
        return true;
    }
    if site.get_char(q) != '/' {
        assert(p[0] == site@[q as int]);
        return false;
    }
    let ns = scan_nonspace(site, q + 1, n);
    proof {
        assert(p[0] == site@[q as int]);
        if ns {
            assert forall|j: int| 1 <= j < p.len() implies !is_space_char(p[j]) by {
                assert(p[j] == site@[q + j]);
            }
        } else {
            if path_matches(p) {
                assert forall|j: int| q + 1 <= j < n implies !is_space_char(site@[j]) by {
                    assert(site@[j] == p[j - q]);
                }
            }
        }
    }
    ns
}

/// Every character of a well-formed domain is a word character or a dot,
/// so a slash never occurs in one.
proof fn lemma_domain_no_slash(d: Seq<char>)
    requires
        domain_matches(d),
    ensures
        forall|j: int| 0 <= j < d.len() ==> d[j] != '/',
{
    let (t, b) = choose|t: int, b: int| domain_split(d, t, b);
    let n = d.len() as int;
    assert forall|j: int| 0 <= j < n implies d[j] != '/' by {
        if j < n - b - t - 1 {
            assert(is_host_char(d[j]));
        } else if j == n - b - t - 1 {
        } else if j < n - b {
            assert(is_lower_char(d[j]));
        } else {
            assert(b == 1 && j == n - 1);
        }
    }
}

/// A split of the tail into domain and path can only happen at the first
/// slash (or at the end, when there is none): the domain part admits no
/// slash and a non-empty path part starts with one.
proof fn lemma_unique_split(s: Seq<char>, i: int, q: int)
    requires
        0 <= i <= q <= s.len(),
        forall|j: int| i <= j < q ==> s[j] != '/',
        q == s.len() || s[q] == '/',
        tail_matches(s, i),
    ensures
        domain_matches(s.subrange(i, q)) && path_matches(s.subrange(q, s.len() as int)),
{
    let qq = choose|qq: int|
        i <= qq <= s.len() && domain_matches(s.subrange(i, qq)) && path_matches(
            s.subrange(qq, s.len() as int),
        );
    lemma_domain_no_slash(s.subrange(i, qq));
    if qq < q {
        assert(s.subrange(qq, s.len() as int).len() > 0);
        assert(s.subrange(qq, s.len() as int)[0] == s[qq]);
        assert(false);
    }
    if qq > q {
        assert(s.subrange(i, qq)[q - i] == s[q]);
        assert(false);
    }
    assert(qq == q);
}

/// Decide whether the tail of `site` from position `i` on is a well-formed
/// domain followed by a well-formed path.
fn tail_check(site: &str, i: usize) -> (r: bool)
    requires
        i <= site@.len(),
    ensures
        r == tail_matches(site@, i as int),
{
    let n = site.unicode_len();
    let mut q = i;
    while q < n && site.get_char(q) != '/'
        invariant
            i <= q <= n,
            n == site@.len(),
            forall|j: int| i <= j < q ==> site@[j] != '/',
        decreases n - q,
    {
        q = q + 1;
    }
    let dm = domain_check(site, i, q);
    let pm = path_check(site, q, n);
    if dm && pm {
        assert(tail_matches(site@, i as int));
        true
    } else {
        proof {
            if tail_matches(site@, i as int) {
                lemma_unique_split(site@, i as int, q as int);
            }
        }
        false
    }
}

fn has_http_prefix(site: &str) -> (r: bool)
    requires
        site@.len() >= 7,
    ensures
        r == (site@.subrange(0, 7) == http_prefix()),
{
    let r = site.get_char(0) == 'h' && site.get_char(1) == 't' && site.get_char(2) == 't'
        && site.get_char(3) == 'p' && site.get_char(4) == ':' && site.get_char(5) == '/'
        && site.get_char(6) == '/';
    proof {
        let p = site@.subrange(0, 7);
        if r {
            assert(p =~= http_prefix());
        } else {
            if p == http_prefix() {
                assert(site@[0] == p[0] && site@[1] == p[1] && site@[2] == p[2] && site@[3] == p[3]
                    && site@[4] == p[4] && site@[5] == p[5] && site@[6] == p[6]);
                assert(false);
            }
        }
    }
    r
}

fn has_https_prefix(site: &str) -> (r: bool)
    requires
        site@.len() >= 8,
    ensures
        r == (site@.subrange(0, 8) == https_prefix()),
{
    let r = site.get_char(0) == 'h' && site.get_char(1) == 't' && site.get_char(2) == 't'
        && site.get_char(3) == 'p' && site.get_char(4) == 's' && site.get_char(5) == ':'
        && site.get_char(6) == '/' && site.get_char(7) == '/';
    proof {
        let p = site@.subrange(0, 8);
        if r {
            assert(p =~= https_prefix());
        } else {
            if p == https_prefix() {
                assert(site@[0] == p[0] && site@[1] == p[1] && site@[2] == p[2] && site@[3] == p[3]
                    && site@[4] == p[4] && site@[5] == p[5] && site@[6] == p[6] && site@[7]
                    == p[7]);
                assert(false);
            }
        }
    }
    r
}

/// A site identifier matches exactly when its tail matches after one of
/// the three possible schemes: none, `http://`, or `https://`.
proof fn lemma_scheme_cases(s: Seq<char>)
    ensures
        site_matches(s) <==> (tail_matches(s, 0) || (s.len() >= 7 && s.subrange(0, 7)
            == http_prefix() && tail_matches(s, 7)) || (s.len() >= 8 && s.subrange(0, 8)
            == https_prefix() && tail_matches(s, 8))),
{
    if site_matches(s) {
        let i = choose|i: int| scheme_split(s, i) && tail_matches(s, i);
    }
    if tail_matches(s, 0) {
        assert(scheme_split(s, 0) && tail_matches(s, 0));
    }
    if s.len() >= 7 && s.subrange(0, 7) == http_prefix() && tail_matches(s, 7) {
        assert(scheme_split(s, 7) && tail_matches(s, 7));
    }
    if s.len() >= 8 && s.subrange(0, 8) == https_prefix() && tail_matches(s, 8) {
        assert(scheme_split(s, 8) && tail_matches(s, 8));
    }
}

/// Decide whether `site` is an acceptable site identifier.
pub fn is_valid(site: &str) -> (r: bool)
    ensures
        r == site_matches(site@),
{
    let n = site.unicode_len();
    proof {
        lemma_scheme_cases(site@);
    }
    if tail_check(site, 0) {
        return true;
    }
    if n >= 7 && has_http_prefix(site) {
        if tail_check(site, 7) {
            return true;
        }
    }
    if n >= 8 && has_https_prefix(site) {
        if tail_check(site, 8) {
            return true;
        }
    }
    false
}

} // verus!
