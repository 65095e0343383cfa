//! Hyperlink classification and resolution.
//!
//! A raw `href` is either used as-is (absolute `http(s)` URLs and same-page
//! fragments), resolved against a configured base URL, or dropped.  On top
//! of that sits the optional normalisation of pinned standard-library
//! documentation links: `https://doc.rust-lang.org/<version-or-channel>/
//! <area>/<rest>` is rewritten to `https://doc.rust-lang.org/<area>/<rest>`
//! when the version segment is a three-part dotted version number or one of
//! the release channels, and the area is one of the standard-library
//! namespaces.

use vstd::prelude::*;
use vstd::string::{StrSliceExecFns, StringExecFns};

use crate::strutil;

verus! {

/// The fixed prefix of standard-library documentation links.
pub open spec fn std_docs_prefix() -> Seq<char> {
    "https://doc.rust-lang.org/"@
}

/// An ASCII decimal digit.
pub open spec fn is_digit(c: char) -> bool {
    '0' <= c && c <= '9'
}

/// The least index at or after `from` holding a character that is not a
/// digit, or `s.len()` if the digits run to the end.
pub open spec fn digits_end(s: Seq<char>, from: int) -> int
    decreases s.len() - from,
{
    if from < 0 || from >= s.len() {
        s.len() as int
    } else if !is_digit(s[from]) {
        from
    } else {
        digits_end(s, from + 1)
    }
}

/// The least index at or after `from` holding `'/'`, or `s.len()` if there
/// is none.
pub open spec fn slash_end(s: Seq<char>, from: int) -> int
    decreases s.len() - from,
{
    if from < 0 || from >= s.len() {
        s.len() as int
    } else if s[from] == '/' {
        from
    } else {
        slash_end(s, from + 1)
    }
}

/// A three-part dotted version number: three runs of one or more digits,
/// separated by single dots.
pub open spec fn is_version_seg(s: Seq<char>) -> bool {
    let i = digits_end(s, 0);
    let j = digits_end(s, i + 1);
    let q = digits_end(s, j + 1);
    &&& i >= 1
    &&& i < s.len() && s[i] == '.'
    &&& j >= i + 2
    &&& j < s.len() && s[j] == '.'
    &&& q == s.len()
    &&& s.len() >= j + 2
}

/// A named release channel.
pub open spec fn is_channel(s: Seq<char>) -> bool {
    s == "stable"@ || s == "beta"@ || s == "nightly"@
}

/// A core standard-library namespace.
pub open spec fn is_std_area(s: Seq<char>) -> bool {
    s == "core"@ || s == "alloc"@ || s == "std"@
}

/// Whether `h` is a pinned standard-library documentation link: the fixed
/// prefix, a version or channel segment, a slash, a namespace segment, a
/// slash, and an arbitrary remainder.
pub open spec fn spec_matches_std_docs(h: Seq<char>) -> bool {
    let p = std_docs_prefix().len() as int;
    let i = slash_end(h, p);
    let k = slash_end(h, i + 1);
    &&& strutil::spec_starts_with(h, std_docs_prefix())
    &&& i < h.len()
    &&& k < h.len()
    &&& (is_version_seg(h.subrange(p, i)) || is_channel(h.subrange(p, i)))
    &&& is_std_area(h.subrange(i + 1, k))
}

/// Drop the version or channel segment of a pinned standard-library
/// documentation link; leave anything else unchanged.
pub open spec fn spec_unpin_std_docs(h: Seq<char>) -> Seq<char> {
    if spec_matches_std_docs(h) {
        std_docs_prefix() + h.skip(slash_end(h, std_docs_prefix().len() as int) + 1)
    } else {
        h
    }
}

/// Append a path separator to a base URL that lacks one, so that relative
/// references resolve as children of the base's path.
pub open spec fn spec_normalize_base(s: Seq<char>) -> Seq<char> {
    if s.len() > 0 && s.last() == '/' {
        s
    } else {
        s.push('/')
    }
}

/// The URL an anchor resolves to, or `None` when the anchor degrades to
/// plain text.  Follows the handler's order of decisions: same-page
/// fragments under a heading are suppressed; then the optional unpinning
/// rewrite; absolute `http(s)` URLs and fragments pass through; everything
/// else resolves against the base URL, if one is configured.
pub open spec fn spec_resolve(
    href: Seq<char>,
    base: Option<Seq<char>>,
    unpin: bool,
    parent_is_heading: bool,
) -> Option<Seq<char>> {
    if parent_is_heading && strutil::spec_starts_with(href, "#"@) {
        None
    } else {
        let h = if unpin {
            spec_unpin_std_docs(href)
        } else {
            href
        };
        if strutil::spec_starts_with(h, "https://"@) || strutil::spec_starts_with(h, "http://"@)
            || strutil::spec_starts_with(h, "#"@) {
            Some(h)
        } else {
            match base {
                Some(b) => spec_url_join(b, h),
                None => None,
            }
        }
    }
}

/// The href whose resolution against the base URL failed, if resolution
/// was attempted and came back empty: the anchor then degrades to plain
/// text, but the failure is reported rather than silently dropped.
pub open spec fn spec_join_failure(
    href: Seq<char>,
    base: Option<Seq<char>>,
    unpin: bool,
    parent_is_heading: bool,
) -> Option<Seq<char>> {
    if parent_is_heading && strutil::spec_starts_with(href, "#"@) {
        None
    } else {
        let h = if unpin {
            spec_unpin_std_docs(href)
        } else {
            href
        };
        if strutil::spec_starts_with(h, "https://"@) || strutil::spec_starts_with(h, "http://"@)
            || strutil::spec_starts_with(h, "#"@) {
            None
        } else {
            match base {
                Some(b) => if spec_url_join(b, h) is None {
                    Some(h)
                } else {
                    None
                },
                None => None,
            }
        }
    }
}

/// What the `url` crate returns when `rel` is resolved against `base`:
/// `None` when `base` does not parse as an absolute URL or the resolution
/// fails, otherwise the serialisation of the joined URL.
pub uninterp spec fn spec_url_join(base: Seq<char>, rel: Seq<char>) -> Option<Seq<char>>;

/// Relies on `url::Url::parse` and `url::Url::join` for WHATWG-standard
/// URL resolution of `rel` against `base`, and on `String::from(Url)` for
/// the serialisation; the outcome is a function of the two strings alone.
#[verifier::external_body]
pub fn url_join(base: &str, rel: &str) -> (r: Option<String>)
    ensures
        r.deep_view() == spec_url_join(base@, rel@),
{
    match url::Url::parse(base) {
        Ok(b) => match b.join(rel) {
            Ok(u) => Some(String::from(u)),
            Err(_) => None,
        },
        Err(_) => None,
    }
}

/// Everything at or after `from` up to `slash_end` is not a slash, and
/// `slash_end` itself holds one when it is inside the string.
pub proof fn lemma_slash_end_props(s: Seq<char>, from: int)
    requires
        0 <= from <= s.len(),
    ensures
        from <= slash_end(s, from) <= s.len(),
        forall|j: int| from <= j < slash_end(s, from) ==> s[j] != '/',
        slash_end(s, from) < s.len() ==> s[slash_end(s, from)] == '/',
    decreases s.len() - from,
{
    if from < s.len() && s[from] != '/' {
        lemma_slash_end_props(s, from + 1);
    }
}

/// `slash_end` finds exactly the first slash at or after `from`.
pub proof fn lemma_slash_end_at(s: Seq<char>, from: int, pos: int)
    requires
        0 <= from <= pos < s.len(),
        s[pos] == '/',
        forall|j: int| from <= j < pos ==> s[j] != '/',
    ensures
        slash_end(s, from) == pos,
    decreases pos - from,
{
    if from < pos {
        lemma_slash_end_at(s, from + 1, pos);
    }
}

/// Unpinning is idempotent: applying the rewrite to a link already in the
/// unpinned form — in particular to anything the rewrite itself produced —
/// is a no-op.
pub proof fn lemma_unpin_idempotent(h: Seq<char>)
    ensures
        spec_unpin_std_docs(spec_unpin_std_docs(h)) == spec_unpin_std_docs(h),
{
    reveal_strlit("https://doc.rust-lang.org/");
    reveal_strlit("stable");
    reveal_strlit("beta");
    reveal_strlit("nightly");
    reveal_strlit("core");
    reveal_strlit("alloc");
    reveal_strlit("std");
    if spec_matches_std_docs(h) {
        let p = std_docs_prefix().len() as int;
        let i = slash_end(h, p);
        let k = slash_end(h, i + 1);
        lemma_slash_end_props(h, p);
        lemma_slash_end_props(h, i + 1);
        let r = std_docs_prefix() + h.skip(i + 1);
        let area = h.subrange(i + 1, k);
        // The first slash of the rewritten tail sits right after the area.
        let ip = p + (k - (i + 1));
        assert(r.len() == p + h.len() - (i + 1));
        assert(forall|j: int| p <= j < ip ==> r[j] == h[j - p + (i + 1)]);
        assert(r[ip] == h[k]);
        lemma_slash_end_at(r, p, ip);
        assert(r.subrange(p, ip) =~= area);
        // The area is neither a version number nor a channel name, so the
        // rewritten link no longer matches the pattern.
        assert(digits_end("core"@, 0) == 0);
        assert(digits_end("alloc"@, 0) == 0);
        assert(digits_end("std"@, 0) == 0);
        assert(!is_version_seg(area));
        assert(!is_channel(area));
        assert(!spec_matches_std_docs(r));
    }
}

/// Absolute and fragment links pass through: with the unpinning rewrite
/// off, an href starting with `https://` or `#` resolves to itself — except
/// a same-page fragment directly under a heading, which produces no link at
/// all.
pub proof fn lemma_absolute_and_fragment_pass_through(
    href: Seq<char>,
    base: Option<Seq<char>>,
    parent_is_heading: bool,
)
    requires
        strutil::spec_starts_with(href, "https://"@) || strutil::spec_starts_with(href, "#"@),
    ensures
        spec_resolve(href, base, false, parent_is_heading) == (if parent_is_heading
            && strutil::spec_starts_with(href, "#"@) {
            None::<Seq<char>>
        } else {
            Some(href)
        }),
{
}

/// A same-page fragment is never rewritten and always passes through
/// unchanged — unless it sits directly under a heading, where it produces
/// no link at all.
pub proof fn lemma_fragment_pass_through(
    href: Seq<char>,
    base: Option<Seq<char>>,
    unpin: bool,
    parent_is_heading: bool,
)
    requires
        strutil::spec_starts_with(href, "#"@),
    ensures
        spec_resolve(href, base, unpin, parent_is_heading) == (if parent_is_heading {
            None::<Seq<char>>
        } else {
            Some(href)
        }),
{
    reveal_strlit("#");
    reveal_strlit("https://");
    if strutil::spec_starts_with(href, "https://"@) {
        assert(href.subrange(0, 1)[0] == href.subrange(0, 8)[0]);
        assert(false);
    }
    lemma_non_https_unpin_unchanged(href);
}

/// Relative hrefs resolve by standard URL join against the configured
/// base; with no base configured the anchor produces no link.  The
/// unpinning rewrite never touches a relative href.
pub proof fn lemma_relative_resolution(
    href: Seq<char>,
    base: Seq<char>,
    unpin: bool,
    parent_is_heading: bool,
)
    requires
        !strutil::spec_starts_with(href, "https://"@),
        !strutil::spec_starts_with(href, "http://"@),
        !strutil::spec_starts_with(href, "#"@),
    ensures
        spec_resolve(href, Some(base), unpin, parent_is_heading) == spec_url_join(base, href),
        spec_resolve(href, None, unpin, parent_is_heading) is None,
{
    lemma_non_https_unpin_unchanged(href);
}

/// An href that does not start with `https://` cannot be a pinned
/// standard-library documentation link.
pub proof fn lemma_non_https_unpin_unchanged(h: Seq<char>)
    requires
        !strutil::spec_starts_with(h, "https://"@),
    ensures
        spec_unpin_std_docs(h) == h,
{
    reveal_strlit("https://");
    reveal_strlit("https://doc.rust-lang.org/");
    if strutil::spec_starts_with(h, std_docs_prefix()) {
        assert(forall|j: int| 0 <= j < 26 ==> h[j] == std_docs_prefix()[j]);
        assert(h.subrange(0, 8) =~= "https://"@);
    }
}

/// Find `digits_end(s@, from)` by scanning.
fn scan_digits(s: &str, from: usize, n: usize) -> (r: usize)
    requires
        n == s@.len(),
        from <= n,
    ensures
        r == digits_end(s@, from as int),
        from <= r <= n,
{
    let mut p = from;
    while p < n
        invariant
            n == s@.len(),
            from <= p <= n,
            digits_end(s@, from as int) == digits_end(s@, p as int),
        decreases n - p,
    {
        let c = s.get_char(p);
        if !('0' <= c && c <= '9') {
            return p;
        }
        p += 1;
    }
    p
}

/// Find `slash_end(s@, from)` by scanning.
fn scan_slash(s: &str, from: usize, n: usize) -> (r: usize)
    requires
        n == s@.len(),
        from <= n,
    ensures
        r == slash_end(s@, from as int),
        from <= r <= n,
{
    let mut p = from;
    while p < n
        invariant
            n == s@.len(),
            from <= p <= n,
            slash_end(s@, from as int) == slash_end(s@, p as int),
        decreases n - p,
    {
        if s.get_char(p) == '/' {
            return p;
        }
        p += 1;
    }
    p
}

/// Decide `is_version_seg` for a segment.
fn check_version_seg(s: &str) -> (r: bool)
    ensures
        r == is_version_seg(s@),
{
    let n = s.unicode_len();
    let i = scan_digits(s, 0, n);
    if i < 1 {
        return false;
    }
    if i >= n || s.get_char(i) != '.' {
        return false;
    }
    let j = scan_digits(s, i + 1, n);
    if j - i < 2 {
        return false;
    }
    if j >= n || s.get_char(j) != '.' {
        return false;
    }
    let q = scan_digits(s, j + 1, n);
    q == n && n - j >= 2
}

/// Rewrite a pinned standard-library documentation link to its unpinned
/// form; leave any other string unchanged.
pub fn unpin_std_docs(href: &str) -> (r: String)
    ensures
        r@ == spec_unpin_std_docs(href@),
{
    proof {
        reveal_strlit("https://doc.rust-lang.org/");
    }
    if !strutil::str_starts_with(href, "https://doc.rust-lang.org/") {
        return href.to_owned();
    }
    let n = href.unicode_len();
    let i = scan_slash(href, 26, n);
    if i >= n {
        return href.to_owned();
    }
    let seg = href.substring_char(26, i);
    let version_or_channel = check_version_seg(seg) || strutil::str_eq(seg, "stable")
        || strutil::str_eq(seg, "beta") || strutil::str_eq(seg, "nightly");
    if !version_or_channel {
        return href.to_owned();
    }
    let k = scan_slash(href, i + 1, n);
    if k >= n {
        return href.to_owned();
    }
    let area = href.substring_char(i + 1, k);
    if !(strutil::str_eq(area, "core") || strutil::str_eq(area, "alloc") || strutil::str_eq(
        area,
        "std",
    )) {
        return href.to_owned();
    }
    let mut out = String::from_str("https://doc.rust-lang.org/");
    out.append(href.substring_char(i + 1, n));
    proof {
        assert(href@.subrange((i + 1) as int, n as int) =~= href@.skip((i + 1) as int));
    }
    out
}

/// Append a path separator to a base URL that lacks one.
pub fn normalize_base(s: &str) -> (r: String)
    ensures
        r@ == spec_normalize_base(s@),
{
    proof {
        reveal_strlit("/");
    }
    if strutil::ends_with_char(s, '/') {
        s.to_owned()
    } else {
        let mut r = s.to_owned();
        r.append("/");
        proof {
            assert(r@ =~= s@.push('/'));
        }
        r
    }
}

/// The outcome of resolving one `href`: the URL the anchor should link
/// to, or `None` when it degrades to plain text; and, when resolution
/// against the base URL was attempted and failed, the href that failed.
pub struct Resolution {
    pub url: Option<String>,
    pub failed_href: Option<String>,
}

/// Resolve a raw `href` to the URL the anchor should link to, reporting a
/// failed resolution against the base URL instead of dropping it silently.
pub fn resolve_href(href: &str, base: Option<&str>, unpin: bool, parent_is_heading: bool) -> (r:
    Resolution)
    ensures
        r.url.deep_view() == spec_resolve(href@, base.deep_view(), unpin, parent_is_heading),
        r.failed_href.deep_view() == spec_join_failure(
            href@,
            base.deep_view(),
            unpin,
            parent_is_heading,
        ),
{
    if parent_is_heading && strutil::str_starts_with(href, "#") {
        return Resolution { url: None, failed_href: None };
    }
    let h: String = if unpin {
        unpin_std_docs(href)
    } else {
        href.to_owned()
    };
    if strutil::str_starts_with(h.as_str(), "https://") || strutil::str_starts_with(
        h.as_str(),
        "http://",
    ) || strutil::str_starts_with(h.as_str(), "#") {
        return Resolution { url: Some(h), failed_href: None };
    }
    match base {
        Some(b) => match url_join(b, h.as_str()) {
            Some(u) => Resolution { url: Some(u), failed_href: None },
            None => Resolution { url: None, failed_href: Some(h) },
        },
        None => Resolution { url: None, failed_href: None },
    }
}

} // verus!
