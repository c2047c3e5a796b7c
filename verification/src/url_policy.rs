//! Which URLs the manager accepts, and for what.

use vstd::prelude::*;
use crate::errors::{internal, AppError, ErrorView};
use crate::text::{
    begins_with, char_is_control, char_is_white, chars_of, ends_in, find, find_spec, index_of, is_control,
    is_white, lemma_find, lowered, only, same_ignoring_case, str_eq, string_of, strip_back, trim,
    trim_end_of, trim_of, trimmed, trimmed_of,
};

verus! {

/// The parts of a parsed URL that the policies read.
#[derive(Debug)]
pub struct UrlParts {
    pub scheme: String,
    pub username: String,
    pub password: Option<String>,
    pub host: Option<String>,
    /// The port, or else the default port of the scheme.
    pub port: Option<u16>,
}

/// The parts of a URL, with texts as characters.
pub struct UrlView {
    pub scheme: Seq<char>,
    pub username: Seq<char>,
    pub password: Option<Seq<char>>,
    pub host: Option<Seq<char>>,
    pub port: Option<u16>,
}

/// A text that may be missing, as characters.
pub open spec fn text_view(t: Option<String>) -> Option<Seq<char>> {
    match t {
        Some(s) => Some(s@),
        None => None,
    }
}

impl View for UrlParts {
    type V = UrlView;

    open spec fn view(&self) -> UrlView {
        UrlView {
            scheme: self.scheme@,
            username: self.username@,
            password: text_view(self.password),
            host: text_view(self.host),
            port: self.port,
        }
    }
}

/// What `url::Url` makes of a text: the parts of the URL, or the words for why it is none.
pub uninterp spec fn parsed_url(raw: Seq<char>) -> Result<UrlView, Seq<char>>;

/// The serialization of the URL in a text after its query and fragment were taken away, if
/// it is one.
pub uninterp spec fn bare_url(raw: Seq<char>) -> Option<Seq<char>>;

/// The parts of the URL in a text, if it is one.
pub open spec fn url_parts(raw: Seq<char>) -> Option<UrlView> {
    match parsed_url(raw) {
        Ok(url) => Some(url),
        Err(_) => None,
    }
}

/// The shape of an HTTPS URL without query and fragment: it begins with the scheme, and
/// holds only printable ASCII characters and no space, question mark, number sign or
/// backslash.
pub open spec fn is_bare_https(s: Seq<char>) -> bool {
    &&& begins_with(s, "https://"@)
    &&& forall|i: int|
        0 <= i < s.len() ==> #[trigger] s[i] != '?' && s[i] != '#' && s[i] != '\\' && 0x21
            <= s[i] as u32 <= 0x7e
}

/// Calls `url::Url::parse`, and reads the parts of the URL with `scheme`, `username`,
/// `password`, `host_str` and `port_or_known_default`; where the text does not parse, it
/// gives the words of the `ParseError`. The same text always gives the same result. Nothing
/// else is claimed.
#[verifier::external_body]
fn parse_url(raw: &str) -> (r: Result<UrlParts, String>)
    ensures
        match r {
            Ok(url) => parsed_url(raw@) == Ok::<UrlView, Seq<char>>(url@),
            Err(e) => parsed_url(raw@) == Err::<UrlView, Seq<char>>(e@),
        },
{
    let url = url::Url::parse(raw).map_err(|e| e.to_string())?;
    Ok(
        UrlParts {
            scheme: url.scheme().to_string(),
            username: url.username().to_string(),
            password: url.password().map(str::to_string),
            host: url.host_str().map(str::to_string),
            port: url.port_or_known_default(),
        },
    )
}

/// Calls `url::Url::set_query` and `url::Url::set_fragment` with `None` on what
/// `url::Url::parse` makes of the text, and serializes the URL with `to_string`. The same
/// text always gives the same result, and there is one exactly where the text parses. What
/// comes of an `https` URL begins with the scheme and two slashes, and more follows, since
/// its host is never empty. It holds no question mark and no number sign: they begin the
/// query and the fragment, which are taken away. It holds no backslash, space or control
/// character and nothing outside ASCII either. The host admits none of these, for it is an
/// address or a name in its ASCII form, and in user information and path they are
/// percent-encoded or, the backslash, read as a slash. Nothing else is claimed.
#[verifier::external_body]
fn serialize_bare(raw: &str) -> (r: Option<String>)
    ensures
        text_view(r) == bare_url(raw@),
        r is Some == (parsed_url(raw@) is Ok),
        r is Some && parsed_url(raw@)->Ok_0.scheme == "https"@ ==> is_bare_https(r->0@)
            && r->0@.len() > "https://"@.len(),
{
    let mut url = url::Url::parse(raw).ok()?;
    url.set_query(None);
    url.set_fragment(None);
    Some(url.to_string())
}

/// Why a text is no URL.
pub open spec fn url_fault(raw: Seq<char>) -> Option<Seq<char>> {
    match parsed_url(raw) {
        Ok(_) => None,
        Err(words) => Some(words),
    }
}

/// Why a text is no URL, if it is none.
pub fn url_problem(raw: &str) -> (r: Option<String>)
    ensures
        text_view(r) == url_fault(raw@),
{
    match parse_url(raw) {
        Ok(_) => None,
        Err(words) => Some(words),
    }
}

impl UrlParts {
    /// The parts of the URL in a text, if it is one.
    pub fn parse(raw: &str) -> (r: Option<UrlParts>)
        ensures
            match r {
                Some(parts) => url_parts(raw@) == Some(parts@),
                None => url_parts(raw@) is None,
            },
    {
        match parse_url(raw) {
            Ok(url) => Some(url),
            Err(_) => None,
        }
    }
}

/// The URL in a text, without query and fragment.
pub fn url_without_query(raw: &str) -> (r: Option<String>)
    ensures
        text_view(r) == bare_url(raw@),
        r is Some == (url_parts(raw@) is Some),
        r is Some && url_parts(raw@)->0.scheme == "https"@ ==> is_bare_https(r->0@)
            && r->0@.len() > "https://"@.len(),
{
    serialize_bare(raw)
}

// ---------------------------------------------------------------------------
// Navigation
// ---------------------------------------------------------------------------

/// The scheme of the bundled application. On Windows it is the compatibility scheme
/// that the configuration selects, elsewhere `tauri`.
pub open spec fn bundled_scheme(windows: bool, use_https_scheme: bool) -> Seq<char> {
    if windows {
        if use_https_scheme {
            "https"@
        } else {
            "http"@
        }
    } else {
        "tauri"@
    }
}

/// The scheme of the bundled application.
pub fn bundled_app_scheme(windows: bool, use_https_scheme: bool) -> (r: &'static str)
    ensures
        r@ == bundled_scheme(windows, use_https_scheme),
{
    if windows {
        if use_https_scheme {
            "https"
        } else {
            "http"
        }
    } else {
        "tauri"
    }
}

/// The host of the bundled application under a scheme.
pub open spec fn bundled_host(scheme: Seq<char>) -> Seq<char> {
    if scheme == "tauri"@ {
        "localhost"@
    } else {
        "tauri.localhost"@
    }
}

/// The port of the bundled application under a scheme.
pub open spec fn bundled_port(scheme: Seq<char>) -> Option<u16> {
    if scheme == "http"@ {
        Some(80u16)
    } else if scheme == "https"@ {
        Some(443u16)
    } else {
        None
    }
}

/// No user name and no password.
pub open spec fn anonymous(url: UrlView) -> bool {
    url.username.len() == 0 && url.password is None
}

/// The exact origin of the bundled application.
pub open spec fn is_bundled_origin(url: UrlView, scheme: Seq<char>) -> bool {
    &&& url.scheme == scheme
    &&& url.host == Some(bundled_host(scheme))
    &&& anonymous(url)
    &&& url.port == bundled_port(scheme)
}

/// The development server: plain HTTP on a loopback name, at its one port.
pub open spec fn is_dev_origin(url: UrlView) -> bool {
    &&& url.scheme == "http"@
    &&& url.host == Some("127.0.0.1"@) || url.host == Some("localhost"@)
    &&& anonymous(url)
    &&& url.port == Some(1420u16)
}

fn text_is(t: &Option<String>, s: &str) -> (r: bool)
    ensures
        r == (text_view(*t) == Some(s@)),
{
    match t {
        Some(x) => str_eq(x.as_str(), s),
        None => false,
    }
}

fn is_anonymous(url: &UrlParts) -> (r: bool)
    ensures
        r == anonymous(url@),
{
    let name = chars_of(url.username.as_str());
    name.len() == 0 && url.password.is_none()
}

/// Whether a document may replace the top-level one: only the exact origin of the
/// bundled application may, and the development server where it is allowed.
pub fn is_allowed_app_navigation(
    url: &UrlParts,
    allow_dev_server: bool,
    bundled_scheme: &str,
) -> (r: bool)
    ensures
        r == (is_bundled_origin(url@, bundled_scheme@) || (allow_dev_server && is_dev_origin(
            url@,
        ))),
{
    let tauri = str_eq(bundled_scheme, "tauri");
    let http = str_eq(bundled_scheme, "http");
    let https = str_eq(bundled_scheme, "https");
    proof {
        reveal_strlit("http");
        reveal_strlit("https");
        assert("http"@.len() == 4 && "https"@.len() == 5);
    }
    let host = if tauri {
        text_is(&url.host, "localhost")
    } else {
        text_is(&url.host, "tauri.localhost")
    };
    let port = match url.port {
        Some(p) => (http && p == 80) || (https && p == 443),
        None => !http && !https,
    };
    if str_eq(url.scheme.as_str(), bundled_scheme) && host && is_anonymous(url) && port {
        return true;
    }
    let dev_port = match url.port {
        Some(p) => p == 1420,
        None => false,
    };
    allow_dev_server && str_eq(url.scheme.as_str(), "http") && (text_is(&url.host, "127.0.0.1")
        || text_is(&url.host, "localhost")) && is_anonymous(url) && dev_port
}

/// In a release only one origin can be navigated to, whatever the URL: the scheme,
/// the host and the port are fixed, and there is no user information.
pub proof fn law_release_navigation_is_one_origin(a: UrlView, b: UrlView, scheme: Seq<char>)
    requires
        is_bundled_origin(a, scheme),
        is_bundled_origin(b, scheme),
    ensures
        a == b,
{
    assert(a.username =~= b.username);
}

// ---------------------------------------------------------------------------
// External links
// ---------------------------------------------------------------------------

/// A character that no link may hold.
pub open spec fn forbidden_in_link(c: char) -> bool {
    is_control(c) || is_white(c) || c == '\\'
}

/// Whether a text holds a forbidden character.
pub open spec fn has_forbidden(s: Seq<char>) -> bool {
    exists|i: int| 0 <= i < s.len() && forbidden_in_link(#[trigger] s[i])
}

/// What stands before the first slash, question mark or hash.
pub open spec fn authority(rest: Seq<char>) -> Seq<char>
    decreases rest.len(),
{
    if rest.len() == 0 || rest[0] == '/' || rest[0] == '?' || rest[0] == '#' {
        Seq::empty()
    } else {
        seq![rest[0]] + authority(rest.skip(1))
    }
}

/// Whether a link may be handed to the system: an HTTP or HTTPS URL with a host
/// and without user information. Otherwise, what is wrong with it.
pub open spec fn external_url_verdict(url: Seq<char>) -> Result<(), ErrorView> {
    if has_forbidden(url) {
        Err(ErrorView::Internal("链接包含非法字符"@))
    } else {
        match find_spec(url, "://"@) {
            None => Err(ErrorView::Internal("仅支持 http(s) 链接"@)),
            Some(i) => {
                let scheme = lowered(url.take(i));
                let host = trimmed_of(authority(url.skip(i + 3)), '.');
                if scheme != lowered("https"@) && scheme != lowered("http"@) {
                    Err(ErrorView::Internal("仅支持 http(s) 链接"@))
                } else if host.len() == 0 || host.contains('@') {
                    Err(ErrorView::Internal("链接缺少有效主机名"@))
                } else {
                    Ok(())
                }
            },
        }
    }
}

fn holds_forbidden(s: &[char]) -> (r: bool)
    ensures
        r == has_forbidden(s@),
{
    let mut i: usize = 0;
    while i < s.len()
        invariant
            i <= s@.len(),
            forall|j: int| 0 <= j < i ==> !forbidden_in_link(#[trigger] s@[j]),
        decreases s@.len() - i,
    {
        let c = s[i];
        if char_is_control(c) || char_is_white(c) || c == '\\' {
            assert(forbidden_in_link(s@[i as int]));
            return true;
        }
        i += 1;
    }
    false
}

fn authority_of(rest: &[char]) -> (r: Vec<char>)
    ensures
        r@ == authority(rest@),
{
    let mut out: Vec<char> = Vec::new();
    let mut i: usize = 0;
    assert(rest@.skip(0) == rest@);
    assert(out@ + authority(rest@) == authority(rest@));
    while i < rest.len() && rest[i] != '/' && rest[i] != '?' && rest[i] != '#'
        invariant
            i <= rest@.len(),
            out@ + authority(rest@.skip(i as int)) == authority(rest@),
        decreases rest@.len() - i,
    {
        let ghost before = out@;
        let ghost here = rest@.skip(i as int);
        out.push(rest[i]);
        assert(here.skip(1) == rest@.skip(i + 1));
        assert(before + (seq![here[0]] + authority(here.skip(1))) == out@ + authority(
            here.skip(1),
        ));
        i += 1;
    }
    assert(authority(rest@.skip(i as int)) == Seq::<char>::empty());
    assert(out@ + Seq::<char>::empty() == out@);
    out
}

/// Whether a link may be handed to the system.
pub fn validate_external_http_url(url: &str) -> (r: Result<(), AppError>)
    ensures
        match r {
            Ok(()) => external_url_verdict(url@) is Ok,
            Err(e) => external_url_verdict(url@) == Err::<(), ErrorView>(e@),
        },
{
    let cs = chars_of(url);
    let all = cs.as_slice();
    if holds_forbidden(all) {
        return Err(internal("链接包含非法字符"));
    }
    let sep = chars_of("://");
    proof {
        reveal_strlit("://");
    }
    match find(all, sep.as_slice()) {
        None => Err(internal("仅支持 http(s) 链接")),
        Some(i) => {
            let scheme = &all[0..i];
            assert(scheme@ == url@.take(i as int));
            let n: usize = all.len();
            let rest = &all[i + 3..n];
            assert(rest@ == url@.skip(i + 3));
            let https = chars_of("https");
            let http = chars_of("http");
            if !same_ignoring_case(scheme, https.as_slice()) && !same_ignoring_case(
                scheme,
                http.as_slice(),
            ) {
                return Err(internal("仅支持 http(s) 链接"));
            }
            let whole = authority_of(rest);
            let host = trim_of(whole.as_slice(), '.');
            let at = index_of(host, '@');
            proof {
                crate::text::lemma_index(host@, '@');
                if host@.contains('@') {
                    let k = choose|k: int| 0 <= k < host@.len() && host@[k] == '@';
                    assert(host@[k] == '@');
                }
            }
            if host.len() == 0 || at.is_some() {
                return Err(internal("链接缺少有效主机名"));
            }
            Ok(())
        },
    }
}

/// A link that is accepted names HTTP or HTTPS and holds no white space, control
/// character or backslash.
pub proof fn law_accepted_links_are_plain_http(url: Seq<char>)
    requires
        external_url_verdict(url) is Ok,
    ensures
        forall|i: int|
            0 <= i < url.len() ==> !is_white(#[trigger] url[i]) && !is_control(url[i]) && url[i]
                != '\\',
        exists|i: int|
            #![trigger url.take(i)]
            0 <= i <= url.len() && (lowered(url.take(i)) == lowered("https"@) || lowered(
                url.take(i),
            ) == lowered("http"@)),
{
    assert forall|i: int| 0 <= i < url.len() implies !is_white(#[trigger] url[i]) && !is_control(
        url[i],
    ) && url[i] != '\\' by {
        assert(!forbidden_in_link(url[i]));
    }
    lemma_find(url, "://"@);
    let i = find_spec(url, "://"@)->0;
    assert(0 <= i <= url.len());
    assert(url.take(i) == url.take(i));
}

// ---------------------------------------------------------------------------
// The Windows source
// ---------------------------------------------------------------------------

/// The endpoint paths that a source URL may end with.
pub open spec fn endpoint_suffixes() -> Seq<Seq<char>> {
    seq![
        "/latest/manifest"@,
        "/latest/checksums"@,
        "/latest/win-unpacked"@,
        "/latest/win-arm64"@,
        "/latest/win-x64"@,
        "/latest/win"@,
        "/latest"@,
    ]
}

/// `base` without the first of the suffixes that it ends with, and without the
/// slashes before it.
pub open spec fn without_endpoint(base: Seq<char>, suffixes: Seq<Seq<char>>) -> Seq<char>
    decreases suffixes.len(),
{
    if suffixes.len() == 0 {
        base
    } else if ends_in(base, suffixes[0]) {
        strip_back(base.take(base.len() - suffixes[0].len()), only('/'))
    } else {
        without_endpoint(base, suffixes.skip(1))
    }
}

/// The base of a source: the text without white space and slashes around it and
/// without an endpoint path, unless nothing is left.
pub open spec fn source_base(raw: Seq<char>) -> Option<Seq<char>> {
    let base = strip_back(trimmed(raw), only('/'));
    if base.len() == 0 {
        None
    } else {
        let short = without_endpoint(base, endpoint_suffixes());
        if short.len() == 0 {
            None
        } else {
            Some(short)
        }
    }
}

/// The base of a Windows source that was given with an endpoint or without one.
pub fn normalize_windows_source_base(raw: &str) -> (r: Option<String>)
    ensures
        text_view(r) == source_base(raw@),
{
    let cs = chars_of(raw);
    let base = trim_end_of(trim(cs.as_slice()), '/');
    if base.len() == 0 {
        return None;
    }
    let suffixes: Vec<&'static str> = vec![
        "/latest/manifest",
        "/latest/checksums",
        "/latest/win-unpacked",
        "/latest/win-arm64",
        "/latest/win-x64",
        "/latest/win",
        "/latest",
    ];
    let ghost all = endpoint_suffixes();
    let mut i: usize = 0;
    assert(all.skip(0) == all);
    while i < suffixes.len()
        invariant
            i <= suffixes@.len(),
            suffixes@.len() == all.len(),
            forall|j: int| 0 <= j < all.len() ==> (#[trigger] suffixes@[j])@ == all[j],
            all == endpoint_suffixes(),
            base@ == strip_back(trimmed(raw@), only('/')),
            base@.len() > 0,
            without_endpoint(base@, all.skip(i as int)) == without_endpoint(base@, all),
            i == suffixes@.len() ==> without_endpoint(base@, all) == base@,
        decreases suffixes@.len() - i,
    {
        let suffix = chars_of(suffixes[i]);
        assert(suffix@ == all[i as int]);
        let ghost here = all.skip(i as int);
        assert(here[0] == suffix@);
        assert(here.skip(1) == all.skip(i + 1));
        if crate::text::ends_with(base, suffixes[i]) {
            let kept = &base[0..base.len() - suffix.len()];
            assert(kept@ == base@.take(base@.len() - suffix@.len()));
            let out = trim_end_of(kept, '/');
            if out.len() == 0 {
                return None;
            }
            return Some(string_of(out));
        }
        i += 1;
        proof {
            if i == suffixes@.len() {
                assert(all.skip(i as int) == Seq::<Seq<char>>::empty());
            }
        }
    }
    Some(string_of(base))
}

} // verus!
