//! The online catalog of skins: which entries count, where they are fetched from,
//! and what is accepted of what was fetched.

use vstd::prelude::*;
use vstd::utf8::encode_utf8;
use crate::digest::{
    base64_of, base64_text, digest_matches, fnv1a, fnv1a64, hex, hex16, hex16_of, sha256,
    sha256_hex,
};
use crate::errors::{said, said_around, AppError, ErrorView};
use crate::sorted::{
    before, comes_before, lemma_before_irreflexive, lemma_before_total, lemma_before_transitive,
};
use crate::text::{
    begins_with, char_is_ascii_alnum, chars_of, contains, contains_text, decimal, decimal_of,
    is_ascii_alnum, lower, lowered, push_all, push_str, same_str, starts_with, str_eq, string_of,
    text_of,
};

verus! {

/// Where the catalog is published. Everything is fetched from here.
pub const SKINS_BASE: &'static str = "https://skins.agentsmirror.com";

/// The greatest size of the index, in bytes.
pub const CATALOG_MAX_BYTES: &'static str = "1048576";

/// The greatest size of a package, in bytes.
pub const PACK_MAX_BYTES: &'static str = "52428800";

/// The greatest size of a preview, in bytes.
pub const PREVIEW_MAX_BYTES: &'static str = "2097152";

/// An entry of the catalog.
#[derive(Debug)]
pub struct CatalogSkin {
    pub id: String,
    pub name: String,
    pub description: String,
    pub version: String,
    pub author: String,
    pub appearance: Option<String>,
    pub license: Option<String>,
    pub tags: Vec<String>,
    pub codex_verified: Option<String>,
    pub bytes: u64,
    pub sha256: String,
    pub pack: String,
    pub preview: String,
    /// The group that the skin is shown in.
    pub category: Option<String>,
}

// ---------------------------------------------------------------------------
// Paths in the catalog
// ---------------------------------------------------------------------------

/// A character that a path in the catalog may hold.
pub open spec fn path_char(c: char) -> bool {
    is_ascii_alnum(c) || c == '/' || c == '-' || c == '_' || c == '.'
}

/// A path below the catalog: plain characters, no scheme, no leading slash, and no
/// step upwards.
pub open spec fn is_catalog_path(rel: Seq<char>) -> bool {
    &&& rel.len() > 0
    &&& !contains_text(rel, "://"@)
    &&& !begins_with(rel, "/"@)
    &&& !contains_text(rel, ".."@)
    &&& forall|i: int| 0 <= i < rel.len() ==> path_char(#[trigger] rel[i])
}

fn all_path_chars(s: &[char]) -> (r: bool)
    ensures
        r == (forall|i: int| 0 <= i < s@.len() ==> path_char(#[trigger] s@[i])),
{
    let mut i: usize = 0;
    while i < s.len()
        invariant
            i <= s@.len(),
            forall|j: int| 0 <= j < i ==> path_char(#[trigger] s@[j]),
        decreases s@.len() - i,
    {
        let c = s[i];
        if !(char_is_ascii_alnum(c) || c == '/' || c == '-' || c == '_' || c == '.') {
            assert(!path_char(s@[i as int]));
            return false;
        }
        i += 1;
    }
    true
}

/// The URL of a path in the catalog.
pub fn safe_catalog_path(rel: &str) -> (r: Result<String, AppError>)
    ensures
        match r {
            Ok(url) => is_catalog_path(rel@) && url@ == SKINS_BASE@ + "/"@ + rel@,
            Err(e) => !is_catalog_path(rel@) && e@ == ErrorView::Engine(
                "目录条目路径非法: "@ + rel@,
            ),
        },
{
    let all = chars_of(rel);
    let s = all.as_slice();
    if s.len() > 0 && !contains(s, "://") && !starts_with(s, "/") && !contains(s, "..")
        && all_path_chars(s) {
        Ok(said_around(SKINS_BASE, "/", rel))
    } else {
        Err(AppError::Engine(said("目录条目路径非法: ", rel)))
    }
}

/// A URL made from a path in the catalog stays on the catalog's host: after the base
/// and a slash come only plain characters, and nothing that leads elsewhere.
pub proof fn law_catalog_stays_on_its_host(rel: Seq<char>)
    requires
        is_catalog_path(rel),
    ensures
        forall|i: int|
            0 <= i < rel.len() ==> #[trigger] rel[i] != '@' && rel[i] != ':' && rel[i] != '\\'
                && rel[i] != '?' && rel[i] != '#',
{
    assert forall|i: int| 0 <= i < rel.len() implies #[trigger] rel[i] != '@' && rel[i] != ':'
        && rel[i] != '\\' && rel[i] != '?' && rel[i] != '#' by {
        assert(path_char(rel[i]));
    }
}

// ---------------------------------------------------------------------------
// The index
// ---------------------------------------------------------------------------

/// An entry that can be installed: with an id, a package, and a digest of the right
/// size.
pub open spec fn is_complete(skin: CatalogSkin) -> bool {
    skin.id@.len() > 0 && skin.pack@.len() > 0 && encode_utf8(skin.sha256@).len() == 64
}

/// The complete entries, in order.
pub open spec fn complete(skins: Seq<CatalogSkin>) -> Seq<CatalogSkin>
    decreases skins.len(),
{
    if skins.len() == 0 {
        skins
    } else {
        let rest = complete(skins.drop_last());
        if is_complete(skins.last()) {
            rest.push(skins.last())
        } else {
            rest
        }
    }
}

/// The entries with an id, in order.
pub open spec fn with_id(skins: Seq<CatalogSkin>, id: Seq<char>) -> Seq<CatalogSkin>
    decreases skins.len(),
{
    if skins.len() == 0 {
        skins
    } else {
        let rest = with_id(skins.drop_last(), id);
        if skins.last().id@ == id {
            rest.push(skins.last())
        } else {
            rest
        }
    }
}

/// No entry comes before an earlier one by its id.
pub open spec fn by_id(skins: Seq<CatalogSkin>) -> bool {
    forall|i: int, j: int|
        0 <= i < j < skins.len() ==> !before((#[trigger] skins[j]).id@, (#[trigger] skins[i]).id@)
}

proof fn lemma_with_id_add(a: Seq<CatalogSkin>, b: Seq<CatalogSkin>, id: Seq<char>)
    ensures
        with_id(a + b, id) == with_id(a, id) + with_id(b, id),
    decreases b.len(),
{
    if b.len() == 0 {
        assert(a + b == a);
        assert(with_id(a, id) + with_id(b, id) == with_id(a, id));
    } else {
        lemma_with_id_add(a, b.drop_last(), id);
        assert((a + b).drop_last() == a + b.drop_last());
        assert((a + b).last() == b.last());
        let rest = with_id(b.drop_last(), id);
        assert(with_id(a, id) + rest.push(b.last()) == (with_id(a, id) + rest).push(b.last()));
    }
}

proof fn lemma_with_id_none(a: Seq<CatalogSkin>, id: Seq<char>)
    requires
        forall|i: int| 0 <= i < a.len() ==> (#[trigger] a[i]).id@ != id,
    ensures
        with_id(a, id) == Seq::<CatalogSkin>::empty(),
    decreases a.len(),
{
    if a.len() > 0 {
        assert(a[a.len() - 1].id@ != id);
        let less = a.drop_last();
        assert forall|i: int| 0 <= i < less.len() implies (#[trigger] less[i]).id@ != id by {
            assert(less[i] == a[i]);
        }
        lemma_with_id_none(less, id);
    }
}

/// The entry after all those that do not come after it.
fn insert_skin(list: &mut Vec<CatalogSkin>, skin: CatalogSkin)
    requires
        by_id(old(list)@),
    ensures
        by_id(final(list)@),
        forall|id: Seq<char>| #[trigger]
            with_id(final(list)@, id) == with_id(old(list)@.push(skin), id),
        final(list)@.len() == old(list)@.len() + 1,
{
    let ghost was = list@;
    let ghost new = skin;
    let skin_id = chars_of(skin.id.as_str());
    let mut i: usize = list.len();
    let mut going = true;
    while i > 0 && going
        invariant
            list@ == was,
            i <= was.len(),
            skin_id@ == new.id@,
            forall|j: int| i <= j < was.len() ==> before(new.id@, (#[trigger] was[j]).id@),
            !going ==> i > 0 && !before(new.id@, was[i - 1].id@),
        decreases i + (if going {
            1int
        } else {
            0int
        }),
    {
        let other = chars_of(list[i - 1].id.as_str());
        if comes_before(skin_id.as_slice(), other.as_slice()) {
            i -= 1;
        } else {
            going = false;
        }
    }
    list.insert(i, skin);
    let ghost now = list@;
    proof {
        let a = was.take(i as int);
        let b = was.skip(i as int);
        let one = seq![new];
        assert(now =~= a + one + b);
        assert(was =~= a + b);
        assert(was.push(new) =~= was + one);
        assert forall|x: int, y: int| 0 <= x < y < now.len() implies !before(
            (#[trigger] now[y]).id@,
            (#[trigger] now[x]).id@,
        ) by {
            if y < i {
                assert(now[x] == was[x] && now[y] == was[y]);
            } else if y == i {
                assert(now[y] == new && now[x] == was[x]);
                if before(new.id@, was[x].id@) {
                    if x < i - 1 {
                        assert(!before(was[i - 1].id@, was[x].id@));
                        lemma_before_total(was[i - 1].id@, was[x].id@);
                        if was[x].id@ != was[i - 1].id@ {
                            lemma_before_transitive(new.id@, was[x].id@, was[i - 1].id@);
                        }
                    }
                }
            } else if x < i {
                assert(now[x] == was[x] && now[y] == was[y - 1]);
            } else if x == i {
                assert(now[x] == new && now[y] == was[y - 1]);
                assert(before(new.id@, was[y - 1].id@));
                if before(was[y - 1].id@, new.id@) {
                    lemma_before_transitive(new.id@, was[y - 1].id@, new.id@);
                    lemma_before_irreflexive(new.id@);
                }
            } else {
                assert(now[x] == was[x - 1] && now[y] == was[y - 1]);
            }
        }
        assert forall|id: Seq<char>| #[trigger] with_id(now, id) == with_id(
            was.push(new),
            id,
        ) by {
            lemma_with_id_add(a + one, b, id);
            lemma_with_id_add(a, one, id);
            lemma_with_id_add(was, one, id);
            lemma_with_id_add(a, b, id);
            if new.id@ == id {
                assert forall|j: int| 0 <= j < b.len() implies (#[trigger] b[j]).id@ != id by {
                    assert(b[j] == was[i + j]);
                    assert(before(new.id@, was[i + j].id@));
                    lemma_before_irreflexive(id);
                }
                lemma_with_id_none(b, id);
                let none = Seq::<CatalogSkin>::empty();
                assert(with_id(a, id) + with_id(one, id) + none == with_id(a, id) + none + with_id(
                    one,
                    id,
                ));
            } else {
                lemma_with_id_none(one, id);
                let none = Seq::<CatalogSkin>::empty();
                assert(with_id(a, id) + none + with_id(b, id) == with_id(a, id) + with_id(b, id)
                    + none);
            }
        }
    }
}

/// The entries of an index that count: the complete ones, ordered by id, and entries
/// with the same id in the order of the index.
pub fn prepare_catalog(skins: Vec<CatalogSkin>) -> (r: Vec<CatalogSkin>)
    ensures
        by_id(r@),
        forall|id: Seq<char>| #[trigger] with_id(r@, id) == with_id(complete(skins@), id),
        r@.len() == complete(skins@).len(),
{
    let ghost all = skins@;
    let mut out: Vec<CatalogSkin> = Vec::new();
    assert(complete(all.take(0)) =~= Seq::<CatalogSkin>::empty());
    for skin in it: skins
        invariant
            it.seq() == all,
            by_id(out@),
            out@.len() == complete(all.take(it.index() as int)).len(),
            forall|id: Seq<char>| #[trigger]
                with_id(out@, id) == with_id(complete(all.take(it.index() as int)), id),
    {
        let ghost i = it.index() as int;
        let ghost done = complete(all.take(i));
        let ghost more = all.take(i + 1);
        assert(more.drop_last() == all.take(i));
        assert(more.last() == skin);
        let id = chars_of(skin.id.as_str());
        let pack = chars_of(skin.pack.as_str());
        let digest = skin.sha256.as_str().as_bytes();
        if id.len() > 0 && pack.len() > 0 && digest.len() == 64 {
            let ghost was = out@;
            let ghost s = skin;
            insert_skin(&mut out, skin);
            proof {
                assert forall|id: Seq<char>| #[trigger] with_id(out@, id) == with_id(
                    complete(more),
                    id,
                ) by {
                    assert(with_id(out@, id) == with_id(was.push(s), id));
                    assert(was.push(s).drop_last() == was);
                    assert(done.push(s).drop_last() == done);
                    assert(with_id(was, id) == with_id(done, id));
                }
            }
        }
    }
    assert(all.take(all.len() as int) == all);
    out
}

// ---------------------------------------------------------------------------
// Fetching
// ---------------------------------------------------------------------------

/// Whether some bytes hold others.
pub open spec fn holds_bytes(bytes: Seq<u8>, part: Seq<u8>) -> bool {
    exists|i: int|
        #![trigger bytes.subrange(i, i + part.len())]
        0 <= i && i + part.len() <= bytes.len() && bytes.subrange(i, i + part.len()) == part
}

fn bytes_at(bytes: &[u8], part: &[u8], at: usize) -> (r: bool)
    requires
        at + part@.len() <= bytes@.len(),
    ensures
        r == (bytes@.subrange(at as int, at + part@.len()) == part@),
{
    let mut k: usize = 0;
    while k < part.len()
        invariant
            k <= part@.len(),
            at + part@.len() <= bytes@.len(),
            forall|j: int| 0 <= j < k ==> bytes@[at + j] == part@[j],
        decreases part@.len() - k,
    {
        let n: usize = bytes.len();
        if bytes[at + k] != part[k] {
            assert(bytes@.subrange(at as int, at + part@.len())[k as int] != part@[k as int]);
            return false;
        }
        k += 1;
    }
    assert(bytes@.subrange(at as int, at + part@.len()) =~= part@);
    true
}

fn contains_bytes(bytes: &[u8], part: &[u8]) -> (r: bool)
    ensures
        r == holds_bytes(bytes@, part@),
{
    if part.len() > bytes.len() {
        return false;
    }
    let last: usize = bytes.len() - part.len();
    let mut i: usize = 0;
    loop
        invariant
            i <= last,
            last == bytes@.len() - part@.len(),
            forall|j: int|
                0 <= j < i ==> #[trigger] bytes@.subrange(j, j + part@.len()) != part@,
        decreases last - i,
    {
        if bytes_at(bytes, part, i) {
            return true;
        }
        if i == last {
            return false;
        }
        i += 1;
    }
}

/// Whether a failed transfer failed because the revocation list of a certificate
/// could not be reached: the exit code is that of a TLS error, and the message names
/// the fault.
pub open spec fn is_offline_revocation(exit_code: Option<i32>, stderr: Seq<u8>) -> bool {
    exit_code == Some(35i32) && (holds_bytes(stderr, encode_utf8("CRYPT_E_REVOCATION_OFFLINE"@))
        || holds_bytes(stderr, encode_utf8("0x80092013"@)))
}

/// Whether a failed transfer failed because the revocation list of a certificate
/// could not be reached.
pub fn is_schannel_revocation_offline(exit_code: Option<i32>, stderr: &[u8]) -> (r: bool)
    ensures
        r == is_offline_revocation(exit_code, stderr@),
{
    let tls = match exit_code {
        Some(code) => code == 35,
        None => false,
    };
    tls && (contains_bytes(stderr, "CRYPT_E_REVOCATION_OFFLINE".as_bytes()) || contains_bytes(
        stderr,
        "0x80092013".as_bytes(),
    ))
}

/// Whether the help of curl names the option that makes do without the revocation list.
pub fn curl_supports_schannel_best_effort(help: &[u8]) -> (r: bool)
    ensures
        r == holds_bytes(help@, encode_utf8("--ssl-revoke-best-effort"@)),
{
    contains_bytes(help, "--ssl-revoke-best-effort".as_bytes())
}

/// What to do after a transfer.
#[derive(Debug, Clone, Copy, PartialEq, Eq, Structural)]
pub enum FetchNext {
    Accept,
    /// See whether the transfer can be tried without the revocation list.
    ProbeRetry,
    Refuse,
}

/// What to do after the first transfer. On Windows one whose revocation list could
/// not be reached may be tried again.
pub fn after_first_transfer(
    windows: bool,
    success: bool,
    exit_code: Option<i32>,
    stderr: &[u8],
) -> (r: FetchNext)
    ensures
        r == (if success {
            FetchNext::Accept
        } else if windows && is_offline_revocation(exit_code, stderr@) {
            FetchNext::ProbeRetry
        } else {
            FetchNext::Refuse
        }),
{
    if success {
        FetchNext::Accept
    } else if windows && is_schannel_revocation_offline(exit_code, stderr) {
        FetchNext::ProbeRetry
    } else {
        FetchNext::Refuse
    }
}

/// The error of a transfer that failed. `place` is the URL without what is private.
pub fn transfer_failed(status: &str, place: &str) -> (r: AppError)
    ensures
        r@ == ErrorView::Engine("下载失败 ("@ + status@ + "): "@ + place@),
{
    let mut words = chars_of("下载失败 (");
    push_str(&mut words, status);
    push_str(&mut words, "): ");
    push_str(&mut words, place);
    AppError::Engine(string_of(words.as_slice()))
}

/// The arguments of a transfer: HTTPS alone, with a limit of time and size.
pub open spec fn transfer_args(
    url: Seq<char>,
    max_bytes: Seq<char>,
    timeout: Seq<char>,
    best_effort: bool,
) -> Seq<Seq<char>> {
    let plain = seq![
        "-sSfL"@,
        "--proto"@,
        "=https"@,
        "--retry"@,
        "2"@,
        "--max-time"@,
        timeout,
        "--max-filesize"@,
        max_bytes,
        url,
    ];
    if best_effort {
        seq!["--ssl-revoke-best-effort"@] + plain
    } else {
        plain
    }
}

/// The arguments of a transfer. Trying without the revocation list exists on Windows
/// alone.
pub fn curl_args(
    url: &str,
    max_bytes: &str,
    timeout: &str,
    windows: bool,
    best_effort: bool,
) -> (r: Vec<String>)
    ensures
        crate::store::texts_of(r@) == transfer_args(
            url@,
            max_bytes@,
            timeout@,
            windows && best_effort,
        ),
{
    let mut args: Vec<String> = Vec::new();
    if windows && best_effort {
        args.push(text_of("--ssl-revoke-best-effort"));
    }
    args.push(text_of("-sSfL"));
    args.push(text_of("--proto"));
    args.push(text_of("=https"));
    args.push(text_of("--retry"));
    args.push(text_of("2"));
    args.push(text_of("--max-time"));
    args.push(text_of(timeout));
    args.push(text_of("--max-filesize"));
    args.push(text_of(max_bytes));
    args.push(text_of(url));
    assert(crate::store::texts_of(args@) =~= transfer_args(
        url@,
        max_bytes@,
        timeout@,
        windows && best_effort,
    ));
    args
}

// ---------------------------------------------------------------------------
// Installing a skin
// ---------------------------------------------------------------------------

/// The first entry with an id.
pub open spec fn is_first_with_id(skins: Seq<CatalogSkin>, id: Seq<char>, i: int) -> bool {
    0 <= i < skins.len() && skins[i].id@ == id && forall|j: int|
        0 <= j < i ==> (#[trigger] skins[j]).id@ != id
}

/// The index of the first entry with an id, or the error that there is none.
pub fn choose_skin(skins: &Vec<CatalogSkin>, skin_id: &str) -> (r: Result<usize, AppError>)
    ensures
        match r {
            Ok(i) => is_first_with_id(skins@, skin_id@, i as int),
            Err(e) => (forall|j: int| 0 <= j < skins@.len() ==> (#[trigger] skins@[j]).id@
                != skin_id@) && e@ == ErrorView::Engine("目录中没有该皮肤: "@ + skin_id@),
        },
{
    let mut i: usize = 0;
    while i < skins.len()
        invariant
            i <= skins@.len(),
            forall|j: int| 0 <= j < i ==> (#[trigger] skins@[j]).id@ != skin_id@,
        decreases skins@.len() - i,
    {
        if str_eq(skins[i].id.as_str(), skin_id) {
            return Ok(i);
        }
        i += 1;
    }
    Err(AppError::Engine(said("目录中没有该皮肤: ", skin_id)))
}

/// Lets a package through only if its digest, in hexadecimal digits of either case, is
/// the one in the catalog.
pub fn check_pack(skin_id: &str, announced: &str, bytes: &[u8]) -> (r: Result<(), AppError>)
    ensures
        match r {
            Ok(()) => lowered(hex(sha256(bytes@))) == lowered(announced@),
            Err(e) => lowered(hex(sha256(bytes@))) != lowered(announced@) && e@
                == ErrorView::Engine("校验失败："@ + skin_id@ + " 的 sha256 与目录不符"@),
        },
{
    let digest = sha256_hex(bytes);
    judge_digest(skin_id, digest.as_str(), announced)
}

/// Lets a digest through only if it is the announced one.
pub fn judge_digest(skin_id: &str, digest: &str, announced: &str) -> (r: Result<(), AppError>)
    ensures
        match r {
            Ok(()) => lowered(digest@) == lowered(announced@),
            Err(e) => lowered(digest@) != lowered(announced@) && e@ == ErrorView::Engine(
                "校验失败："@ + skin_id@ + " 的 sha256 与目录不符"@,
            ),
        },
{
    if digest_matches(digest, announced) {
        Ok(())
    } else {
        Err(
            AppError::Engine(said_around("校验失败：", skin_id, " 的 sha256 与目录不符")),
        )
    }
}

// ---------------------------------------------------------------------------
// Previews
// ---------------------------------------------------------------------------

/// A character that a version may have in a file name.
pub open spec fn version_char(c: char) -> bool {
    is_ascii_alnum(c) || c == '.' || c == '-' || c == '_'
}

/// A version as part of a file name: other characters become underscores, and no
/// version becomes a letter.
pub open spec fn safe_version(version: Seq<char>) -> Seq<char> {
    if version.len() == 0 {
        "v"@
    } else {
        version.map_values(|c: char|
            if version_char(c) {
                c
            } else {
                '_'
            })
    }
}

/// The name under which a preview is cached: the hash of its URL and its version.
pub open spec fn cache_name(url: Seq<u8>, version: Seq<char>) -> Seq<char> {
    hex16(fnv1a(url)) + "-"@ + safe_version(version) + ".webp"@
}

/// The name under which a preview is cached.
pub fn preview_cache_name(url: &str, version: &str) -> (r: String)
    ensures
        r@ == cache_name(encode_utf8(url@), version@),
{
    let all = chars_of(version);
    let mut safe: Vec<char> = Vec::new();
    if all.len() == 0 {
        push_str(&mut safe, "v");
        assert(safe@ =~= safe_version(version@));
    } else {
        let mut i: usize = 0;
        while i < all.len()
            invariant
                i <= all@.len(),
                all@ == version@,
                safe@.len() == i,
                forall|j: int|
                    0 <= j < i ==> #[trigger] safe@[j] == (if version_char(version@[j]) {
                        version@[j]
                    } else {
                        '_'
                    }),
            decreases all@.len() - i,
        {
            let c = all[i];
            if char_is_ascii_alnum(c) || c == '.' || c == '-' || c == '_' {
                safe.push(c);
            } else {
                safe.push('_');
            }
            i += 1;
        }
        assert(safe@ =~= safe_version(version@));
    }
    let mut name = hex16_of(fnv1a64(url.as_bytes()));
    push_str(&mut name, "-");
    push_all(&mut name, safe.as_slice());
    push_str(&mut name, ".webp");
    string_of(name.as_slice())
}

/// A version that a file name keeps as it is.
pub open spec fn keeps_version(version: Seq<char>) -> bool {
    version.len() > 0 && forall|i: int|
        0 <= i < version.len() ==> version_char(#[trigger] version[i])
}

/// A new version of a preview misses the cache: two versions are cached under one name
/// only where nothing tells them apart in a file name, which never happens to two versions
/// that a file name keeps as they are.
pub proof fn law_new_version_misses_the_cache(url: Seq<u8>, a: Seq<char>, b: Seq<char>)
    ensures
        cache_name(url, a) == cache_name(url, b) <==> safe_version(a) == safe_version(b),
        keeps_version(a) && keeps_version(b) && a != b ==> cache_name(url, a) != cache_name(url, b),
{
    let sa = safe_version(a);
    let sb = safe_version(b);
    let na = cache_name(url, a);
    let nb = cache_name(url, b);
    let head = hex16(fnv1a(url)) + "-"@;
    let n = head.len() as int;
    if na == nb {
        assert(na.len() == n + sa.len() + ".webp"@.len());
        assert(nb.len() == n + sb.len() + ".webp"@.len());
        assert forall|i: int| 0 <= i < sa.len() implies sa[i] == sb[i] by {
            assert(na[n + i] == sa[i]);
            assert(nb[n + i] == sb[i]);
        }
        assert(sa =~= sb);
    }
    if keeps_version(a) {
        assert(sa =~= a);
    }
    if keeps_version(b) {
        assert(sb =~= b);
    }
}

/// Bytes that look like a WebP image: a RIFF container with the right mark.
pub open spec fn looks_like_webp(bytes: Seq<u8>) -> bool {
    bytes.len() >= 12 && bytes.take(4) == seq![0x52u8, 0x49u8, 0x46u8, 0x46u8] && bytes.subrange(
        8,
        12,
    ) == seq![0x57u8, 0x45u8, 0x42u8, 0x50u8]
}

/// Whether bytes look like a WebP image.
pub fn is_webp(bytes: &[u8]) -> (r: bool)
    ensures
        r == looks_like_webp(bytes@),
{
    if bytes.len() < 12 {
        return false;
    }
    let r = bytes[0] == 0x52 && bytes[1] == 0x49 && bytes[2] == 0x46 && bytes[3] == 0x46
        && bytes[8] == 0x57 && bytes[9] == 0x45 && bytes[10] == 0x42 && bytes[11] == 0x50;
    proof {
        let head = seq![0x52u8, 0x49u8, 0x46u8, 0x46u8];
        let mark = seq![0x57u8, 0x45u8, 0x42u8, 0x50u8];
        if r {
            assert(bytes@.take(4) =~= head);
            assert(bytes@.subrange(8, 12) =~= mark);
        }
        if looks_like_webp(bytes@) {
            assert(bytes@.take(4)[0] == 0x52 && bytes@.take(4)[1] == 0x49 && bytes@.take(4)[2]
                == 0x46 && bytes@.take(4)[3] == 0x46);
            assert(bytes@.subrange(8, 12)[0] == 0x57 && bytes@.subrange(8, 12)[1] == 0x45
                && bytes@.subrange(8, 12)[2] == 0x42 && bytes@.subrange(8, 12)[3] == 0x50);
        }
    }
    r
}

/// What to do with a cached preview.
#[derive(Debug)]
pub enum CachedPreview {
    /// Use these bytes.
    Hit(Vec<u8>),
    /// The file is damaged: remove it and fetch.
    Damaged,
    /// There is none: fetch.
    Missing,
}

/// What to do with a cached preview, given what was read.
pub fn read_cached_preview(read: Option<Vec<u8>>) -> (r: CachedPreview)
    ensures
        match (read, r) {
            (None, CachedPreview::Missing) => true,
            (Some(bytes), CachedPreview::Hit(kept)) => looks_like_webp(bytes@) && kept == bytes,
            (Some(bytes), CachedPreview::Damaged) => !looks_like_webp(bytes@),
            _ => false,
        },
{
    match read {
        None => CachedPreview::Missing,
        Some(bytes) => {
            if is_webp(bytes.as_slice()) {
                CachedPreview::Hit(bytes)
            } else {
                CachedPreview::Damaged
            }
        },
    }
}

/// The media type of an image, by the extension of its file.
pub open spec fn image_type(extension: Seq<char>) -> Option<Seq<char>> {
    let e = lowered(extension);
    if e == "png"@ {
        Some("image/png"@)
    } else if e == "jpg"@ || e == "jpeg"@ {
        Some("image/jpeg"@)
    } else if e == "webp"@ {
        Some("image/webp"@)
    } else {
        None
    }
}

/// The media type of an image, by the extension of its file in either case.
pub fn preview_mime(extension: &str) -> (r: Option<&'static str>)
    ensures
        match r {
            Some(t) => image_type(extension@) == Some(t@),
            None => image_type(extension@) is None,
        },
{
    let all = chars_of(extension);
    let e = lower(all.as_slice());
    if same_str(e.as_slice(), "png") {
        Some("image/png")
    } else if same_str(e.as_slice(), "jpg") || same_str(e.as_slice(), "jpeg") {
        Some("image/jpeg")
    } else if same_str(e.as_slice(), "webp") {
        Some("image/webp")
    } else {
        None
    }
}

/// Bytes as a URL that holds them. Bytes whose text would not fit in memory are left
/// out.
pub fn data_url(mime: &str, bytes: &[u8]) -> (r: String)
    requires
        bytes@.len() <= usize::MAX / 4,
    ensures
        r@ == "data:"@ + mime@ + ";base64,"@ + base64_text(bytes@),
{
    let text = base64_of(bytes);
    join_data_url(mime, text.as_str())
}

/// A data URL from a media type and the encoded bytes.
pub fn join_data_url(mime: &str, encoded: &str) -> (r: String)
    ensures
        r@ == "data:"@ + mime@ + ";base64,"@ + encoded@,
{
    let mut out = chars_of("data:");
    push_str(&mut out, mime);
    push_str(&mut out, ";base64,");
    push_str(&mut out, encoded);
    string_of(out.as_slice())
}

/// The name of the temporary file of a package that was fetched.
pub fn staging_name(process: u32, skin_id: &str) -> (r: String)
    ensures
        r@ == "codexskin-online-"@ + decimal(process as nat) + "-"@ + skin_id@ + ".codexskin"@,
{
    let mut out = chars_of("codexskin-online-");
    let digits = decimal_of(process as u64);
    push_all(&mut out, digits.as_slice());
    push_str(&mut out, "-");
    push_str(&mut out, skin_id);
    push_str(&mut out, ".codexskin");
    string_of(out.as_slice())
}

} // verus!
