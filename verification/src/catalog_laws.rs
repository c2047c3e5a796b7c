//! What the catalog of skins and the skin store take and refuse, told by characters, bytes and
//! entries.

use vstd::prelude::*;
use crate::catalog::{
    by_id, cache_name, complete, holds_bytes, image_type, is_catalog_path, is_offline_revocation,
    looks_like_webp, path_char, safe_version, transfer_args, version_char, with_id, CatalogSkin,
};
use crate::digest::{fnv1a, hex, hex16, hex_digit};
use crate::errors::ErrorView;
use crate::store::{
    chosen_dir, deletion_refused, is_plain_id, move_next, names, root_list, store_place, MoveStep,
    SkinLook, StoreEntry,
};
use crate::sorted::before;
use crate::text::{begins_with, contains_text, is_white, lowered, occurs_at};
use crate::text_laws::{all_white, law_trimming_takes_white_space};
use vstd::utf8::encode_utf8;

verus! {

// ---------------------------------------------------------------------------
// Paths and versions
// ---------------------------------------------------------------------------

/// Whether two dots stand side by side.
pub open spec fn has_two_dots(s: Seq<char>) -> bool {
    exists|i: int| 0 <= i < s.len() - 1 && #[trigger] s[i] == '.' && s[i + 1] == '.'
}

proof fn lemma_two_dots(s: Seq<char>)
    ensures
        contains_text(s, ".."@) <==> has_two_dots(s),
{
    reveal_strlit("..");
    if contains_text(s, ".."@) {
        let i = choose|i: int| occurs_at(s, ".."@, i);
        assert(s.subrange(i, i + 2)[0] == '.');
        assert(s.subrange(i, i + 2)[1] == '.');
        assert(s[i] == '.' && s[i + 1] == '.');
    }
    if has_two_dots(s) {
        let i = choose|i: int| 0 <= i < s.len() - 1 && #[trigger] s[i] == '.' && s[i + 1] == '.';
        assert(s.subrange(i, i + 2) =~= ".."@);
        assert(occurs_at(s, ".."@, i));
    }
}

/// The characters of a path are the letters and digits of ASCII, the dash, the dot, the slash
/// and the underscore; those of a version are the same without the slash.
pub proof fn law_path_and_version_characters(c: char)
    ensures
        path_char(c) <==> 45 <= c as u32 <= 57 || 65 <= c as u32 <= 90 || c as u32 == 95 || 97 <= c
            as u32 <= 122,
        version_char(c) <==> path_char(c) && c != '/',
{
}

proof fn lemma_slash(c: char)
    ensures
        c == '/' <==> c as u32 == 47,
{
}

/// A path is taken exactly where it is not empty, is made of the characters of a path, does
/// not begin with a slash, and has no two dots side by side.
pub proof fn law_catalog_paths_are_told_by_their_characters(rel: Seq<char>)
    ensures
        is_catalog_path(rel) <==> {
            &&& rel.len() > 0
            &&& rel[0] != '/'
            &&& !has_two_dots(rel)
            &&& forall|i: int|
                0 <= i < rel.len() ==> ({
                    let n = #[trigger] rel[i] as u32;
                    45 <= n <= 57 || 65 <= n <= 90 || n == 95 || 97 <= n <= 122
                })
        },
{
    reveal_strlit("/");
    reveal_strlit("://");
    lemma_two_dots(rel);
    if rel.len() > 0 {
        assert(begins_with(rel, "/"@) <==> rel[0] == '/') by {
            if begins_with(rel, "/"@) {
                assert(rel.subrange(0, 1)[0] == '/');
            }
            if rel[0] == '/' {
                assert(rel.subrange(0, 1) =~= "/"@);
            }
        }
        if is_catalog_path(rel) {
            assert forall|i: int| 0 <= i < rel.len() implies ({
                let n = #[trigger] rel[i] as u32;
                45 <= n <= 57 || 65 <= n <= 90 || n == 95 || 97 <= n <= 122
            }) by {
                assert(path_char(rel[i]));
                law_path_and_version_characters(rel[i]);
            }
        }
        if contains_text(rel, "://"@) {
            let i = choose|i: int| occurs_at(rel, "://"@, i);
            assert(rel.subrange(i, i + 3)[0] == ':');
            assert(rel[i] == ':');
            assert(rel[i] as u32 == 58);
        }
        assert forall|i: int|
            0 <= i < rel.len() && ({
                let n = #[trigger] rel[i] as u32;
                45 <= n <= 57 || 65 <= n <= 90 || n == 95 || 97 <= n <= 122
            }) implies path_char(rel[i]) by {
            law_path_and_version_characters(rel[i]);
        }
    }
}

/// A version in a file name has as many characters as it had; each that may stand there stays
/// and every other one becomes an underscore. No version is the letter `v`.
pub proof fn law_versions_in_file_names(version: Seq<char>)
    ensures
        version.len() > 0 ==> safe_version(version).len() == version.len(),
        forall|i: int|
            0 <= i < version.len() ==> ({
                let n = version[i] as u32;
                let stays = n == 45 || n == 46 || 48 <= n <= 57 || 65 <= n <= 90 || n == 95 || 97
                    <= n <= 122;
                #[trigger] safe_version(version)[i] == (if stays {
                    version[i]
                } else {
                    '_'
                })
            }),
        version.len() == 0 ==> safe_version(version) == seq!['v'],
{
    reveal_strlit("v");
    assert("v"@ =~= seq!['v']);
    assert forall|i: int| 0 <= i < version.len() implies ({
        let n = version[i] as u32;
        let stays = n == 45 || n == 46 || 48 <= n <= 57 || 65 <= n <= 90 || n == 95 || 97 <= n
            <= 122;
        #[trigger] safe_version(version)[i] == (if stays {
            version[i]
        } else {
            '_'
        })
    }) by {
        law_path_and_version_characters(version[i]);
        lemma_slash(version[i]);
    }
}

// ---------------------------------------------------------------------------
// The index and what is fetched
// ---------------------------------------------------------------------------

/// An entry is kept exactly where it has an id, a package and a digest of sixty-four bytes; the
/// kept entries stay in their order.
pub proof fn law_complete_entries_are_kept(skins: Seq<CatalogSkin>, skin: CatalogSkin)
    ensures
        complete(Seq::empty()) == Seq::<CatalogSkin>::empty(),
        skin.id@.len() > 0 && skin.pack@.len() > 0 && encode_utf8(skin.sha256@).len() == 64
            ==> complete(skins.push(skin)) == complete(skins).push(skin),
        skin.id@.len() == 0 || skin.pack@.len() == 0 || encode_utf8(skin.sha256@).len() != 64
            ==> complete(skins.push(skin)) == complete(skins),
{
    assert(skins.push(skin).drop_last() =~= skins);
    assert(skins.push(skin).last() == skin);
}

/// Entries are in order exactly where each new one comes before none of those that are there,
/// and those with an id are picked out in their order.
pub proof fn law_entries_are_ordered_by_id(
    skins: Seq<CatalogSkin>,
    skin: CatalogSkin,
    id: Seq<char>,
)
    ensures
        by_id(skins.push(skin)) <==> by_id(skins) && forall|i: int|
            0 <= i < skins.len() ==> !before(skin.id@, (#[trigger] skins[i]).id@),
        skin.id@ == id ==> with_id(skins.push(skin), id) == with_id(skins, id).push(skin),
        skin.id@ != id ==> with_id(skins.push(skin), id) == with_id(skins, id),
        with_id(Seq::empty(), id).len() == 0,
{
    let all = skins.push(skin);
    let n = skins.len() as int;
    assert(all.drop_last() =~= skins);
    assert(all[n] == skin);
    if by_id(all) {
        assert forall|i: int, j: int| 0 <= i < j < skins.len() implies !before(
            (#[trigger] skins[j]).id@,
            (#[trigger] skins[i]).id@,
        ) by {
            assert(all[i] == skins[i]);
            assert(all[j] == skins[j]);
        }
        assert forall|i: int| 0 <= i < skins.len() implies !before(
            skin.id@,
            (#[trigger] skins[i]).id@,
        ) by {
            assert(all[i] == skins[i]);
            assert(!before(all[n].id@, all[i].id@));
        }
    }
    if by_id(skins) && forall|i: int|
        0 <= i < skins.len() ==> !before(skin.id@, (#[trigger] skins[i]).id@) {
        assert forall|i: int, j: int| 0 <= i < j < all.len() implies !before(
            (#[trigger] all[j]).id@,
            (#[trigger] all[i]).id@,
        ) by {
            assert(all[i] == skins[i]);
            if j < n {
                assert(all[j] == skins[j]);
            }
        }
    }
}

/// A transfer asks for HTTPS alone, gives the limits of time and size after their options, and
/// names the address last. The option for the revocation list comes first, and only where it
/// is wanted.
pub proof fn law_transfers_are_limited(
    url: Seq<char>,
    max_bytes: Seq<char>,
    timeout: Seq<char>,
)
    ensures
        transfer_args(url, max_bytes, timeout, false) == seq![
            "-sSfL"@,
            "--proto"@,
            "=https"@,
            "--retry"@,
            "2"@,
            "--max-time"@,
            timeout,
            "--max-filesize"@,
            max_bytes,
            url,
        ],
        transfer_args(url, max_bytes, timeout, true) == seq!["--ssl-revoke-best-effort"@]
            + transfer_args(url, max_bytes, timeout, false),
{
}

/// Bytes are found where they stand.
pub proof fn law_bytes_are_found(a: Seq<u8>, part: Seq<u8>, b: Seq<u8>)
    ensures
        holds_bytes(a + part + b, part),
        part.len() > a.len() ==> !holds_bytes(a, part),
{
    let all = a + part + b;
    let n = a.len() as int;
    assert(all.subrange(n, n + part.len()) =~= part);
}

/// A failed transfer is one of an unreachable revocation list exactly where the code is
/// thirty-five and the message names the fault by its word or by its number.
pub proof fn law_unreachable_revocation_lists_are_told(code: Option<i32>, a: Seq<u8>, b: Seq<u8>)
    ensures
        is_offline_revocation(Some(35i32), a + encode_utf8("CRYPT_E_REVOCATION_OFFLINE"@) + b),
        is_offline_revocation(Some(35i32), a + encode_utf8("0x80092013"@) + b),
        code != Some(35i32) ==> !is_offline_revocation(code, a),
        is_offline_revocation(code, a) ==> holds_bytes(
            a,
            encode_utf8("CRYPT_E_REVOCATION_OFFLINE"@),
        ) || holds_bytes(a, encode_utf8("0x80092013"@)),
{
    law_bytes_are_found(a, encode_utf8("CRYPT_E_REVOCATION_OFFLINE"@), b);
    law_bytes_are_found(a, encode_utf8("0x80092013"@), b);
}

/// Bytes look like a WebP image exactly where they are twelve or more, begin with `RIFF`, and
/// have `WEBP` after four more bytes.
pub proof fn law_images_are_told_by_their_bytes(bytes: Seq<u8>)
    ensures
        looks_like_webp(bytes) <==> bytes.len() >= 12 && bytes[0] == 0x52 && bytes[1] == 0x49
            && bytes[2] == 0x46 && bytes[3] == 0x46 && bytes[8] == 0x57 && bytes[9] == 0x45
            && bytes[10] == 0x42 && bytes[11] == 0x50,
{
    if bytes.len() >= 12 {
        let head = bytes.take(4);
        let mark = bytes.subrange(8, 12);
        assert(head[0] == bytes[0] && head[1] == bytes[1] && head[2] == bytes[2] && head[3]
            == bytes[3]);
        assert(mark[0] == bytes[8] && mark[1] == bytes[9] && mark[2] == bytes[10] && mark[3]
            == bytes[11]);
        if bytes[0] == 0x52 && bytes[1] == 0x49 && bytes[2] == 0x46 && bytes[3] == 0x46 {
            assert(head =~= seq![0x52u8, 0x49u8, 0x46u8, 0x46u8]);
        }
        if bytes[8] == 0x57 && bytes[9] == 0x45 && bytes[10] == 0x42 && bytes[11] == 0x50 {
            assert(mark =~= seq![0x57u8, 0x45u8, 0x42u8, 0x50u8]);
        }
    }
}

/// The type of an image goes by its extension in either case.
pub proof fn law_image_types_go_by_extension(e: Seq<char>)
    ensures
        lowered(e) == seq!['p', 'n', 'g'] ==> image_type(e) == Some("image/png"@),
        lowered(e) == seq!['j', 'p', 'g'] ==> image_type(e) == Some("image/jpeg"@),
        lowered(e) == seq!['j', 'p', 'e', 'g'] ==> image_type(e) == Some("image/jpeg"@),
        lowered(e) == seq!['w', 'e', 'b', 'p'] ==> image_type(e) == Some("image/webp"@),
        lowered(e) != seq!['p', 'n', 'g'] && lowered(e) != seq!['j', 'p', 'g'] && lowered(e)
            != seq!['j', 'p', 'e', 'g'] && lowered(e) != seq!['w', 'e', 'b', 'p'] ==> image_type(e)
            is None,
{
    reveal_strlit("png");
    reveal_strlit("jpg");
    reveal_strlit("jpeg");
    reveal_strlit("webp");
    assert("png"@ =~= seq!['p', 'n', 'g']);
    assert("jpg"@ =~= seq!['j', 'p', 'g']);
    assert("jpeg"@ =~= seq!['j', 'p', 'e', 'g']);
    assert("webp"@ =~= seq!['w', 'e', 'b', 'p']);
    assert(seq!['p', 'n', 'g'][0] != seq!['j', 'p', 'g'][0]);
    assert(seq!['w', 'e', 'b', 'p'][0] != seq!['j', 'p', 'e', 'g'][0]);
}

/// The digits of a byte are those of its two halves, the letters being lower case, and two
/// different bytes have different digits.
pub proof fn law_digits_of_bytes(n: u8, bytes: Seq<u8>, b: u8)
    ensures
        n < 10 ==> hex_digit(n) as u32 == 48 + n,
        10 <= n < 16 ==> hex_digit(n) as u32 == 87 + n,
        hex(bytes).len() == 2 * bytes.len(),
        hex(bytes.push(b)) == hex(bytes).push(hex_digit((b / 16) as u8)).push(
            hex_digit((b % 16) as u8),
        ),
{
    let more = hex(bytes.push(b));
    let want = hex(bytes).push(hex_digit((b / 16) as u8)).push(hex_digit((b % 16) as u8));
    assert forall|i: int| 0 <= i < more.len() implies more[i] == want[i] by {
        if i < 2 * bytes.len() {
            assert(bytes.push(b)[i / 2] == bytes[i / 2]);
        } else {
            assert(i / 2 == bytes.len());
        }
    }
    assert(more =~= want);
}

/// The sixteen digits of a number are those of its sixteenth part, moved by one, and that of
/// the rest.
pub proof fn law_digits_of_numbers(n: u64, i: int)
    ensures
        hex16(n).len() == 16,
        hex16(n)[15] == hex_digit((n % 16) as u8),
        0 <= i < 15 ==> hex16(n)[i] == hex16(n / 16)[i + 1],
        hex16(0)[0] == '0',
{
    assert((n >> 0u64) & 0xf == n % 16) by (bit_vector);
    assert((0u64 >> 60u64) & 0xf == 0) by (bit_vector);
    if 0 <= i < 15 {
        let s: u64 = (60 - 4 * i) as u64;
        let t: u64 = (56 - 4 * i) as u64;
        assert((n >> s) & 0xf == ((n / 16) >> t) & 0xf) by (bit_vector)
            requires
                4 <= s <= 60,
                s == t + 4,
        ;
    }
}

/// A preview is cached under the digits of the hash of its address and its version.
pub proof fn law_previews_are_cached_by_address_and_version(url: Seq<u8>, version: Seq<char>)
    ensures
        cache_name(url, version) == hex16(fnv1a(url)) + "-"@ + safe_version(version) + ".webp"@,
{
}

/// The hash of no bytes is the offset of FNV-1a, and each byte is mixed in before the hash is
/// multiplied by the prime.
pub proof fn law_hash_mixes_each_byte(bytes: Seq<u8>, b: u8)
    ensures
        fnv1a(Seq::empty()) == 14695981039346656037u64,
        fnv1a(bytes.push(b)) == (((fnv1a(bytes) ^ (b as u64)) * 1099511628211)
            % 18446744073709551616) as u64,
{
    assert(bytes.push(b).drop_last() =~= bytes);
    assert(bytes.push(b).last() == b);
}

/// Texts are ordered by the first character in which they differ, and a text comes before
/// every longer one that begins with it.
pub proof fn law_order_goes_by_the_first_difference(
    common: Seq<char>,
    x: char,
    a: Seq<char>,
    y: char,
    b: Seq<char>,
)
    ensures
        x != y ==> (before(common.push(x) + a, common.push(y) + b) <==> (x as u32) < (y as u32)),
        before(common, common.push(y) + b),
        !before(common.push(y) + b, common),
        !before(common, common),
    decreases common.len(),
{
    let s = common.push(x) + a;
    let t = common.push(y) + b;
    if common.len() == 0 {
        assert(s[0] == x);
        assert(t[0] == y);
    } else {
        let less = common.skip(1);
        assert(s[0] == common[0]);
        assert(t[0] == common[0]);
        assert(s.skip(1) =~= less.push(x) + a);
        assert(t.skip(1) =~= less.push(y) + b);
        law_order_goes_by_the_first_difference(less, x, a, y, b);
    }
}

// ---------------------------------------------------------------------------
// The store
// ---------------------------------------------------------------------------

/// A directory that is set counts without the white space around it, and one that is blank
/// does not count. The store is where the user chose, or else where the platform has it.
pub proof fn law_chosen_directories_come_first(
    a: Seq<char>,
    dir: Seq<char>,
    b: Seq<char>,
    platform: Option<Seq<char>>,
    store: Seq<char>,
)
    requires
        all_white(a),
        all_white(b),
        dir.len() > 0,
        !is_white(dir[0]),
        !is_white(dir.last()),
    ensures
        chosen_dir(Some(a + dir + b)) == Some(dir),
        chosen_dir(Some(a)) is None,
        chosen_dir(None) is None,
        store_place(Some(a + dir + b), platform) == Some(dir),
        store_place(Some(a), platform) == platform,
        store_place(None, platform) == platform,
        root_list(Some(a + dir + b), Some(store)) == seq![a + dir + b, store],
        root_list(Some(a + dir + b), None) == seq![a + dir + b],
        root_list(Some(a), Some(store)) == seq![store],
        root_list(None, Some(store)) == seq![store],
        root_list(Some(a), None).len() == 0,
        root_list(None, None).len() == 0,
{
    let none = Seq::<char>::empty();
    law_trimming_takes_white_space(a, dir, b);
    law_trimming_takes_white_space(a, none, none);
    assert(a + none + none =~= a);
    assert(seq![a + dir + b].push(store) =~= seq![a + dir + b, store]);
    assert(Seq::<Seq<char>>::empty().push(store) =~= seq![store]);
}

/// An id is a plain name exactly where it is not empty, holds neither slash nor backslash nor
/// two dots side by side, and is not a single dot.
pub proof fn law_plain_names_are_told_by_their_characters(id: Seq<char>)
    ensures
        is_plain_id(id) <==> {
            &&& id.len() > 0
            &&& forall|i: int| 0 <= i < id.len() ==> #[trigger] id[i] != '/' && id[i] != '\\'
            &&& !has_two_dots(id)
            &&& !(id.len() == 1 && id[0] == '.')
        },
{
    reveal_strlit(".");
    lemma_two_dots(id);
    if id.len() == 1 && id[0] == '.' {
        assert(id =~= "."@);
    }
    if is_plain_id(id) {
        assert forall|i: int| 0 <= i < id.len() implies #[trigger] id[i] != '/' && id[i]
            != '\\' by {
            assert(id.contains(id[i]));
        }
    }
}

/// A skin is deleted exactly where it is not the active one, has a plain name, and lies
/// directly in the store as a directory with a manifest and no link. Each other one is
/// refused for what is wrong with it.
pub proof fn law_deletions_are_refused_for_a_cause(
    active: Option<Seq<char>>,
    id: Seq<char>,
    look: SkinLook,
)
    ensures
        deletion_refused(active, id, look) is None <==> active != Some(id) && is_plain_id(id)
            && look.inside && !look.symlink && look.is_dir && look.has_manifest,
        active == Some(id) ==> deletion_refused(active, id, look) == Some(
            "请先关闭该主题再删除"@,
        ),
        active != Some(id) && !is_plain_id(id) ==> deletion_refused(active, id, look) == Some(
            "非法皮肤 id: "@ + id,
        ),
        active != Some(id) && is_plain_id(id) && !look.inside ==> deletion_refused(
            active,
            id,
            look,
        ) == Some("路径越界，拒绝删除"@),
        active != Some(id) && is_plain_id(id) && look.inside && look.symlink
            ==> deletion_refused(active, id, look) == Some(id + " 是符号链接，拒绝删除"@),
        active != Some(id) && is_plain_id(id) && look.inside && !look.symlink && !look.is_dir
            ==> deletion_refused(active, id, look) == Some("商店中没有该皮肤: "@ + id),
        active != Some(id) && is_plain_id(id) && look.inside && !look.symlink && look.is_dir
            && !look.has_manifest ==> deletion_refused(active, id, look) == Some(
            id + " 不是有效皮肤目录，拒绝删除"@,
        ),
{
}

/// A package moves where its name is free and stays where it is taken; what is no package is in
/// neither list. The lists keep the order.
pub proof fn law_packages_move_where_their_name_is_free(
    entries: Seq<StoreEntry>,
    entry: StoreEntry,
    taken: bool,
)
    ensures
        names(Seq::empty(), taken).len() == 0,
        entry.package && entry.taken == taken ==> names(entries.push(entry), taken) == names(
            entries,
            taken,
        ).push(entry.name@),
        !entry.package || entry.taken != taken ==> names(entries.push(entry), taken) == names(
            entries,
            taken,
        ),
{
    assert(entries.push(entry).drop_last() =~= entries);
    assert(entries.push(entry).last() == entry);
}

/// A move ends without an error where the rename goes well, and where it does not but the copy
/// and the removal do. A copy or a removal that fails is the error.
pub proof fn law_moves_fail_for_a_cause(source: Seq<char>, why: Seq<char>)
    ensures
        move_next(source, MoveStep::Rename, None, None) == (
            MoveStep::Finished,
            None::<ErrorView>,
        ),
        move_next(source, MoveStep::Rename, None, Some(why)) == (
            MoveStep::CopyTree,
            None::<ErrorView>,
        ),
        move_next(source, MoveStep::CopyTree, None, None) == (
            MoveStep::RemoveSource,
            None::<ErrorView>,
        ),
        move_next(source, MoveStep::RemoveSource, None, None) == (
            MoveStep::Finished,
            None::<ErrorView>,
        ),
        move_next(source, MoveStep::CopyTree, None, Some(why)) == (
            MoveStep::Finished,
            Some(ErrorView::Internal("迁移 "@ + source + " 失败: "@ + why)),
        ),
        move_next(source, MoveStep::RemoveSource, None, Some(why)) == (
            MoveStep::Finished,
            Some(ErrorView::Internal("清理旧目录失败: "@ + why)),
        ),
{
}

} // verus!
