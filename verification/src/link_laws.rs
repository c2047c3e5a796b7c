//! Which links are opened and where the window may go, told by the text and the parts of the
//! address.

use vstd::prelude::*;
use crate::errors::ErrorView;
use crate::text::{
    contains_text, ends_in, find_spec, is_control, is_white, lemma_find_is, lowered, occurs_at,
    only, strip_back,
};
use crate::text_laws::{
    all_white, law_trimming_a_character, law_trimming_takes_white_space, lemma_strip_back_is,
};
use crate::url_policy::{
    authority, bundled_scheme, endpoint_suffixes, external_url_verdict, forbidden_in_link,
    has_forbidden, is_bundled_origin, is_dev_origin, source_base, without_endpoint, UrlView,
};

verus! {

/// What stands before the first slash, question mark or number sign, and what follows it.
proof fn lemma_authority(host: Seq<char>, rest: Seq<char>)
    requires
        !host.contains('/'),
        !host.contains('?'),
        !host.contains('#'),
        rest.len() > 0 ==> rest[0] == '/' || rest[0] == '?' || rest[0] == '#',
    ensures
        authority(host + rest) == host,
    decreases host.len(),
{
    let all = host + rest;
    if host.len() == 0 {
        assert(all == rest);
        assert(host == Seq::<char>::empty());
    } else {
        assert(all[0] == host[0]);
        assert(host.contains(host[0]));
        let less = host.skip(1);
        assert(all.skip(1) == less + rest);
        assert forall|c: char| #[trigger] less.contains(c) implies host.contains(c) by {
            let i = choose|i: int| 0 <= i < less.len() && less[i] == c;
            assert(host[i + 1] == c);
        }
        lemma_authority(less, rest);
        assert(host =~= seq![host[0]] + less);
    }
}

/// The first mark that ends a scheme.
proof fn lemma_scheme_ends(scheme: Seq<char>, rest: Seq<char>)
    requires
        !scheme.contains(':'),
    ensures
        find_spec(scheme + seq![':', '/', '/'] + rest, "://"@) == Some(scheme.len() as int),
{
    reveal_strlit("://");
    let mark = seq![':', '/', '/'];
    assert("://"@ =~= mark);
    let all = scheme + mark + rest;
    let n = scheme.len() as int;
    assert(all.subrange(n, n + 3) =~= mark);
    assert(occurs_at(all, mark, n));
    assert forall|j: int| 0 <= j < n implies !occurs_at(all, mark, j) by {
        if occurs_at(all, mark, j) {
            assert(all.subrange(j, j + 3)[0] == all[j]);
            assert(all[j] == scheme[j]);
            assert(scheme.contains(scheme[j]));
        }
    }
    lemma_find_is(all, mark, n);
}

/// A link is opened exactly where it names `http` or `https` in either case, then a host that
/// is more than dots and holds no at sign, and holds no control character, white space or
/// backslash anywhere. What follows the host does not matter otherwise.
pub proof fn law_links_are_told_by_their_text(
    scheme: Seq<char>,
    dots: Seq<char>,
    host: Seq<char>,
    more_dots: Seq<char>,
    rest: Seq<char>,
)
    requires
        !scheme.contains(':'),
        forall|i: int| 0 <= i < dots.len() ==> #[trigger] dots[i] == '.',
        forall|i: int| 0 <= i < more_dots.len() ==> #[trigger] more_dots[i] == '.',
        host.len() > 0 ==> host[0] != '.' && host.last() != '.',
        !host.contains('/'),
        !host.contains('?'),
        !host.contains('#'),
        rest.len() > 0 ==> rest[0] == '/' || rest[0] == '?' || rest[0] == '#',
    ensures
        ({
            let url = scheme + seq![':', '/', '/'] + (dots + host + more_dots + rest);
            let clean = forall|i: int|
                0 <= i < url.len() ==> !is_control(#[trigger] url[i]) && !is_white(url[i])
                    && url[i] != '\\';
            let web = lowered(scheme) == seq!['h', 't', 't', 'p'] || lowered(scheme) == seq![
                'h',
                't',
                't',
                'p',
                's',
            ];
            let hosted = host.len() > 0 && !host.contains('@');
            &&& clean && web && hosted ==> external_url_verdict(url) is Ok
            &&& external_url_verdict(url) is Ok ==> clean && web && hosted
            &&& !clean ==> external_url_verdict(url) == Err::<(), ErrorView>(
                ErrorView::Internal("链接包含非法字符"@),
            )
            &&& clean && !web ==> external_url_verdict(url) == Err::<(), ErrorView>(
                ErrorView::Internal("仅支持 http(s) 链接"@),
            )
            &&& clean && web && !hosted ==> external_url_verdict(url) == Err::<(), ErrorView>(
                ErrorView::Internal("链接缺少有效主机名"@),
            )
        }),
{
    let mark = seq![':', '/', '/'];
    let place = dots + host + more_dots;
    let tail = dots + host + more_dots + rest;
    let url = scheme + mark + tail;
    lemma_clean(url);
    lemma_scheme_ends(scheme, tail);
    assert(url.take(scheme.len() as int) =~= scheme);
    assert(url.skip((scheme.len() + 3) as int) =~= tail);
    assert(tail =~= place + rest);
    assert forall|c: char| #[trigger] place.contains(c) implies c == '.' || host.contains(c) by {
        let i = choose|i: int| 0 <= i < place.len() && place[i] == c;
        if i < dots.len() {
            assert(dots[i] == c);
        } else if i < dots.len() + host.len() {
            assert(host[i - dots.len()] == c);
        } else {
            assert(more_dots[i - dots.len() - host.len()] == c);
        }
    }
    lemma_authority(place, rest);
    law_trimming_a_character('.', dots, host, more_dots);
    lemma_scheme_words();
}

proof fn lemma_scheme_words()
    ensures
        lowered("https"@) == seq!['h', 't', 't', 'p', 's'],
        lowered("http"@) == seq!['h', 't', 't', 'p'],
{
    reveal_strlit("https");
    reveal_strlit("http");
    assert(lowered("https"@) =~= seq!['h', 't', 't', 'p', 's']);
    assert(lowered("http"@) =~= seq!['h', 't', 't', 'p']);
}

proof fn lemma_clean(url: Seq<char>)
    ensures
        has_forbidden(url) <==> !(forall|i: int|
            0 <= i < url.len() ==> !is_control(#[trigger] url[i]) && !is_white(url[i]) && url[i]
                != '\\'),
{
    if has_forbidden(url) {
        let i = choose|i: int| 0 <= i < url.len() && forbidden_in_link(#[trigger] url[i]);
        assert(is_control(url[i]) || is_white(url[i]) || url[i] == '\\');
    } else {
        assert forall|i: int| 0 <= i < url.len() implies !is_control(#[trigger] url[i])
            && !is_white(url[i]) && url[i] != '\\' by {
            assert(!forbidden_in_link(url[i]));
        }
    }
}

/// A text without the mark after a scheme is no link; it is refused for that unless it holds
/// a character that no link may hold.
pub proof fn law_text_without_a_scheme_is_no_link(url: Seq<char>)
    requires
        !contains_text(url, "://"@),
    ensures
        ({
            let clean = forall|i: int|
                0 <= i < url.len() ==> !is_control(#[trigger] url[i]) && !is_white(url[i])
                    && url[i] != '\\';
            external_url_verdict(url) == Err::<(), ErrorView>(
                ErrorView::Internal(
                    if clean {
                        "仅支持 http(s) 链接"@
                    } else {
                        "链接包含非法字符"@
                    },
                ),
            )
        }),
{
    lemma_clean(url);
}

/// The window may go to the bundled application, told by scheme, host and port, and nowhere
/// with user information.
pub proof fn law_bundled_application_is_reachable(url: UrlView)
    requires
        url.username.len() == 0,
        url.password is None,
    ensures
        url.scheme == "tauri"@ && url.host == Some("localhost"@) && url.port is None
            ==> is_bundled_origin(url, "tauri"@),
        url.scheme == "http"@ && url.host == Some("tauri.localhost"@) && url.port == Some(80u16)
            ==> is_bundled_origin(url, "http"@),
        url.scheme == "https"@ && url.host == Some("tauri.localhost"@) && url.port == Some(443u16)
            ==> is_bundled_origin(url, "https"@),
        url.scheme == "http"@ && (url.host == Some("localhost"@) || url.host == Some("127.0.0.1"@))
            && url.port == Some(1420u16) ==> is_dev_origin(url),
{
    reveal_strlit("tauri");
    reveal_strlit("http");
    reveal_strlit("https");
    assert("tauri"@[0] == 't' && "http"@[0] == 'h' && "https"@[0] == 'h');
    assert("http"@.len() == 4 && "https"@.len() == 5);
}

/// A place with user information, another host or another port is neither the bundled
/// application nor the development server.
pub proof fn law_other_places_are_closed(url: UrlView, scheme: Seq<char>)
    ensures
        is_bundled_origin(url, scheme) ==> url.scheme == scheme && url.username.len() == 0
            && url.password is None && (url.host == Some("localhost"@) || url.host == Some(
            "tauri.localhost"@,
        )),
        is_bundled_origin(url, scheme) && scheme == "tauri"@ ==> url.host == Some("localhost"@),
        is_bundled_origin(url, scheme) && scheme != "tauri"@ ==> url.host == Some(
            "tauri.localhost"@,
        ),
        is_bundled_origin(url, scheme) && url.port is Some ==> (scheme == "http"@ && url.port
            == Some(80u16)) || (scheme == "https"@ && url.port == Some(443u16)),
        is_bundled_origin(url, scheme) && url.port is None ==> scheme != "http"@ && scheme
            != "https"@,
        is_dev_origin(url) ==> url.scheme == "http"@ && url.username.len() == 0 && url.password
            is None && url.port == Some(1420u16) && (url.host == Some("localhost"@) || url.host
            == Some("127.0.0.1"@)),
{
}

/// The scheme of the bundled application on each system.
pub proof fn law_scheme_of_the_bundled_application(use_https_scheme: bool)
    ensures
        bundled_scheme(false, use_https_scheme) == "tauri"@,
        bundled_scheme(true, true) == "https"@,
        bundled_scheme(true, false) == "http"@,
{
}

// ---------------------------------------------------------------------------
// The Windows source
// ---------------------------------------------------------------------------

/// Whether a text is one of the endpoint paths of a source.
pub open spec fn is_endpoint(s: Seq<char>) -> bool {
    s == "/latest/manifest"@ || s == "/latest/checksums"@ || s == "/latest/win-unpacked"@ || s
        == "/latest/win-arm64"@ || s == "/latest/win-x64"@ || s == "/latest/win"@ || s
        == "/latest"@
}

/// Whether a text is made of slashes.
pub open spec fn all_slashes(s: Seq<char>) -> bool {
    forall|i: int| 0 <= i < s.len() ==> #[trigger] s[i] == '/'
}

proof fn lemma_slashes_go(front: Seq<char>, slashes: Seq<char>)
    requires
        all_slashes(slashes),
        front.len() > 0 ==> front.last() != '/',
    ensures
        strip_back(front + slashes, only('/')) == front,
{
    let p = only('/');
    assert forall|i: int| 0 <= i < slashes.len() implies p(#[trigger] slashes[i]) by {
        assert(slashes[i] == '/');
    }
    lemma_strip_back_is(front, slashes, p);
}

proof fn lemma_ends_apart(x: Seq<char>, s: Seq<char>, n: int)
    requires
        0 < n <= s.len(),
        n <= x.len(),
        x[x.len() - n] != s[s.len() - n],
    ensures
        !ends_in(x, s),
{
    if ends_in(x, s) {
        assert(x.subrange(x.len() - s.len(), x.len() as int)[s.len() - n] == x[x.len() - n]);
    }
}

/// Only one endpoint path can stand at the end of a text, so that one is taken off.
proof fn lemma_endpoint_goes(front: Seq<char>, endpoint: Seq<char>)
    requires
        is_endpoint(endpoint),
    ensures
        without_endpoint(front + endpoint, endpoint_suffixes()) == strip_back(front, only('/')),
        endpoint.len() > 0,
        endpoint.last() != '/',
        !is_white(endpoint.last()),
{
    reveal_strlit("/latest/manifest");
    reveal_strlit("/latest/checksums");
    reveal_strlit("/latest/win-unpacked");
    reveal_strlit("/latest/win-arm64");
    reveal_strlit("/latest/win-x64");
    reveal_strlit("/latest/win");
    reveal_strlit("/latest");
    reveal_with_fuel(without_endpoint, 8);
    let x = front + endpoint;
    let n = endpoint.len() as int;
    let all = endpoint_suffixes();
    assert(x.subrange(x.len() - n, x.len() as int) =~= endpoint);
    assert(x.take(x.len() - n) =~= front);
    assert(x[x.len() - 1] == endpoint[n - 1]);
    assert(x[x.len() - 3] == endpoint[n - 3]);
    assert(x[x.len() - 4] == endpoint[n - 4]);
    assert(all.skip(1)[0] == all[1]);
    assert(all.skip(1).skip(1)[0] == all[2]);
    assert(all.skip(1).skip(1).skip(1)[0] == all[3]);
    assert(all.skip(1).skip(1).skip(1).skip(1)[0] == all[4]);
    assert(all.skip(1).skip(1).skip(1).skip(1).skip(1)[0] == all[5]);
    assert(all.skip(1).skip(1).skip(1).skip(1).skip(1).skip(1)[0] == all[6]);
    if endpoint != "/latest/manifest"@ {
        if endpoint == "/latest"@ {
            lemma_ends_apart(x, "/latest/manifest"@, 4);
        } else {
            lemma_ends_apart(x, "/latest/manifest"@, 1);
        }
        if endpoint != "/latest/checksums"@ {
            lemma_ends_apart(x, "/latest/checksums"@, 1);
            if endpoint != "/latest/win-unpacked"@ {
                lemma_ends_apart(x, "/latest/win-unpacked"@, 1);
                if endpoint != "/latest/win-arm64"@ {
                    if endpoint == "/latest/win-x64"@ {
                        lemma_ends_apart(x, "/latest/win-arm64"@, 3);
                    } else {
                        lemma_ends_apart(x, "/latest/win-arm64"@, 1);
                        lemma_ends_apart(x, "/latest/win-x64"@, 1);
                        if endpoint != "/latest/win"@ {
                            lemma_ends_apart(x, "/latest/win"@, 1);
                        }
                    }
                }
            }
        }
    }
}

/// The base of a source is what stands before its endpoint path, whatever white space stands
/// around it and however many slashes before and after that path. A source that is nothing but
/// an endpoint path has no base.
pub proof fn law_endpoint_paths_are_taken_off(
    a: Seq<char>,
    base: Seq<char>,
    slashes: Seq<char>,
    endpoint: Seq<char>,
    more_slashes: Seq<char>,
    b: Seq<char>,
)
    requires
        all_white(a),
        all_white(b),
        all_slashes(slashes),
        all_slashes(more_slashes),
        is_endpoint(endpoint),
        base.len() > 0 ==> !is_white(base[0]) && base.last() != '/',
    ensures
        base.len() > 0 ==> source_base(
            a + (base + slashes + endpoint + more_slashes) + b,
        ) == Some(base),
        base.len() == 0 ==> source_base(a + (base + slashes + endpoint + more_slashes) + b)
            is None,
{
    let front = base + slashes;
    let x = front + endpoint;
    let t = base + slashes + endpoint + more_slashes;
    lemma_endpoint_goes(front, endpoint);
    lemma_first_of_endpoint(endpoint);
    assert(x.last() == endpoint.last());
    assert(t =~= x + more_slashes);
    assert(!is_white(t[0])) by {
        if base.len() > 0 {
            assert(t[0] == base[0]);
        } else if slashes.len() > 0 {
            assert(t[0] == slashes[0]);
        } else {
            assert(t[0] == endpoint[0]);
        }
    }
    assert(!is_white(t.last())) by {
        if more_slashes.len() > 0 {
            assert(t.last() == more_slashes.last());
            assert(more_slashes[more_slashes.len() - 1] == '/');
        } else {
            assert(t.last() == endpoint.last());
        }
    }
    law_trimming_takes_white_space(a, t, b);
    lemma_slashes_go(x, more_slashes);
    lemma_slashes_go(base, slashes);
}

proof fn lemma_first_of_endpoint(endpoint: Seq<char>)
    requires
        is_endpoint(endpoint),
    ensures
        endpoint.len() > 0,
        endpoint[0] == '/',
{
    reveal_strlit("/latest/manifest");
    reveal_strlit("/latest/checksums");
    reveal_strlit("/latest/win-unpacked");
    reveal_strlit("/latest/win-arm64");
    reveal_strlit("/latest/win-x64");
    reveal_strlit("/latest/win");
    reveal_strlit("/latest");
}

/// A source without an endpoint path is its own base, without the white space around it and
/// the slashes at its end. A source of nothing else has no base.
pub proof fn law_plain_sources_are_their_base(
    a: Seq<char>,
    base: Seq<char>,
    slashes: Seq<char>,
    b: Seq<char>,
)
    requires
        all_white(a),
        all_white(b),
        all_slashes(slashes),
        base.len() > 0,
        !is_white(base[0]),
        !is_white(base.last()),
        base.last() != '/',
        forall|e: Seq<char>| #[trigger] is_endpoint(e) ==> !ends_in(base, e),
    ensures
        source_base(a + (base + slashes) + b) == Some(base),
        source_base(a) is None,
        source_base(a + slashes + b) is None,
{
    let t = base + slashes;
    assert(t[0] == base[0]);
    assert(!is_white(t.last())) by {
        if slashes.len() > 0 {
            assert(t.last() == slashes[slashes.len() - 1]);
        }
    }
    law_trimming_takes_white_space(a, t, b);
    lemma_slashes_go(base, slashes);
    reveal_with_fuel(without_endpoint, 8);
    let all = endpoint_suffixes();
    assert(all.skip(1)[0] == all[1]);
    assert(all.skip(1).skip(1)[0] == all[2]);
    assert(all.skip(1).skip(1).skip(1)[0] == all[3]);
    assert(all.skip(1).skip(1).skip(1).skip(1)[0] == all[4]);
    assert(all.skip(1).skip(1).skip(1).skip(1).skip(1)[0] == all[5]);
    assert(all.skip(1).skip(1).skip(1).skip(1).skip(1).skip(1)[0] == all[6]);
    assert(is_endpoint(all[0]) && is_endpoint(all[1]) && is_endpoint(all[2]) && is_endpoint(
        all[3],
    ) && is_endpoint(all[4]) && is_endpoint(all[5]) && is_endpoint(all[6]));
    let none = Seq::<char>::empty();
    law_trimming_takes_white_space(a, none, none);
    assert(a + none + none =~= a);
    lemma_slashes_go(none, none);
    assert(none + none =~= none);
    if slashes.len() > 0 {
        assert(slashes[0] == '/');
        assert(slashes[slashes.len() - 1] == '/');
        law_trimming_takes_white_space(a, slashes, b);
    } else {
        law_trimming_takes_white_space(a, none, b);
        assert(slashes =~= none);
    }
    lemma_slashes_go(none, slashes);
    assert(none + slashes =~= slashes);
}

} // verus!
