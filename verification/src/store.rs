//! The skin store: where skins live, which one a reference means, what may be
//! deleted, and what moves when the store moves.

use vstd::prelude::*;
use crate::errors::{engine, internal, said, AppError, ErrorView};
use crate::settings::AppSettings;
use crate::file_swap::error_view;
use crate::text::{
    chars_of, contains, contains_text, index_of, lemma_index, push_str, same_str, str_eq, string_of,
    text_of, trim, trimmed,
};
use crate::url_policy::text_view;

verus! {

/// A directory setting without the white space around it, if anything is left.
pub open spec fn chosen_dir(dir: Option<Seq<char>>) -> Option<Seq<char>> {
    match dir {
        Some(d) => if trimmed(d).len() == 0 {
            None
        } else {
            Some(trimmed(d))
        },
        None => None,
    }
}

/// Where the store is: where the user chose, or else the platform's place.
pub open spec fn store_place(
    chosen: Option<Seq<char>>,
    platform: Option<Seq<char>>,
) -> Option<Seq<char>> {
    match chosen_dir(chosen) {
        Some(d) => Some(d),
        None => platform,
    }
}

fn chosen(dir: &Option<String>) -> (r: Option<String>)
    ensures
        text_view(r) == chosen_dir(text_view(*dir)),
{
    match dir {
        Some(d) => {
            let all = chars_of(d.as_str());
            let t = trim(all.as_slice());
            if t.len() == 0 {
                None
            } else {
                Some(string_of(t))
            }
        },
        None => None,
    }
}

/// Where managed skins live, given the platform's place for them.
pub fn store_dir(settings: &AppSettings, platform: &Option<String>) -> (r: Result<String, AppError>)
    ensures
        match r {
            Ok(dir) => store_place(
                text_view(settings.codex_theme_store_dir),
                text_view(*platform),
            ) == Some(dir@),
            Err(e) => store_place(
                text_view(settings.codex_theme_store_dir),
                text_view(*platform),
            ) is None && e@ == ErrorView::Internal("无法定位主题存储目录"@),
        },
{
    match chosen(&settings.codex_theme_store_dir) {
        Some(dir) => Ok(dir),
        None => match platform {
            Some(dir) => Ok(text_of(dir.as_str())),
            None => Err(internal("无法定位主题存储目录")),
        },
    }
}

/// The development directory whose themes are listed: without the white space around it,
/// and none where it is blank.
pub fn dev_theme_dir(settings: &AppSettings) -> (r: Option<String>)
    ensures
        text_view(r) == chosen_dir(text_view(settings.codex_theme_dir)),
{
    chosen(&settings.codex_theme_dir)
}

/// The directories in which a theme is looked for: the development directory as it
/// was set, unless it is blank, and then the store.
pub open spec fn root_list(
    dev: Option<Seq<char>>,
    store: Option<Seq<char>>,
) -> Seq<Seq<char>> {
    let first = match dev {
        Some(d) => if trimmed(d).len() == 0 {
            Seq::<Seq<char>>::empty()
        } else {
            seq![d]
        },
        None => Seq::<Seq<char>>::empty(),
    };
    match store {
        Some(s) => first.push(s),
        None => first,
    }
}

/// The texts of a list.
pub open spec fn texts_of(list: Seq<String>) -> Seq<Seq<char>> {
    Seq::new(list.len(), |i: int| list[i]@)
}

/// The directories in which a theme is looked for.
pub fn theme_roots(settings: &AppSettings, platform: &Option<String>) -> (r: Vec<String>)
    ensures
        texts_of(r@) == root_list(
            text_view(settings.codex_theme_dir),
            store_place(text_view(settings.codex_theme_store_dir), text_view(*platform)),
        ),
{
    let mut roots: Vec<String> = Vec::new();
    match &settings.codex_theme_dir {
        Some(d) => {
            let all = chars_of(d.as_str());
            if trim(all.as_slice()).len() > 0 {
                roots.push(text_of(d.as_str()));
            }
        },
        None => {},
    }
    let ghost first = texts_of(roots@);
    assert(first =~= root_list(text_view(settings.codex_theme_dir), None));
    match store_dir(settings, platform) {
        Ok(dir) => {
            let ghost d = dir@;
            roots.push(dir);
            assert(texts_of(roots@) =~= first.push(d));
        },
        Err(_) => {},
    }
    roots
}

/// The first place where a theme was found. `found` holds what each directory gave,
/// in order.
pub fn resolve_theme(found: &Vec<Option<String>>, theme_ref: &str) -> (r: Result<String, AppError>)
    ensures
        match r {
            Ok(dir) => exists|i: int|
                0 <= i < found@.len() && text_view(#[trigger] found@[i]) == Some(dir@)
                    && forall|j: int| 0 <= j < i ==> #[trigger] found@[j] is None,
            Err(e) => (forall|i: int| 0 <= i < found@.len() ==> #[trigger] found@[i] is None)
                && e@ == ErrorView::Engine("未找到主题: "@ + theme_ref@),
        },
{
    let mut i: usize = 0;
    while i < found.len()
        invariant
            i <= found@.len(),
            forall|j: int| 0 <= j < i ==> #[trigger] found@[j] is None,
        decreases found@.len() - i,
    {
        match &found[i] {
            Some(dir) => {
                return Ok(text_of(dir.as_str()));
            },
            None => {},
        }
        i += 1;
    }
    Err(AppError::Engine(said("未找到主题: ", theme_ref)))
}

// ---------------------------------------------------------------------------
// The gallery
// ---------------------------------------------------------------------------

/// Where a package in the gallery comes from.
#[derive(Debug, Clone, Copy, PartialEq, Eq, Structural)]
pub enum ThemeOrigin {
    Dev,
    Store,
}

/// A package in the gallery.
#[derive(Debug)]
pub struct ThemeListEntry<T> {
    pub summary: T,
    pub origin: ThemeOrigin,
}

/// The packages of both directories, development first. A package that is in both
/// is listed twice, so that the version in the store stays visible.
pub fn merged_theme_list<T>(dev: Vec<T>, store: Vec<T>) -> (r: Vec<ThemeListEntry<T>>)
    ensures
        r@.len() == dev@.len() + store@.len(),
        forall|i: int|
            0 <= i < dev@.len() ==> (#[trigger] r@[i]).summary == dev@[i] && r@[i].origin
                == ThemeOrigin::Dev,
        forall|i: int|
            dev@.len() <= i < r@.len() ==> (#[trigger] r@[i]).summary == store@[i - dev@.len()]
                && r@[i].origin == ThemeOrigin::Store,
{
    let mut out: Vec<ThemeListEntry<T>> = Vec::new();
    let ghost all_dev = dev@;
    let ghost all_store = store@;
    for summary in it: dev
        invariant
            it.seq() == all_dev,
            out@.len() == it.index(),
            forall|i: int|
                0 <= i < it.index() ==> (#[trigger] out@[i]).summary == all_dev[i] && out@[i].origin
                    == ThemeOrigin::Dev,
    {
        out.push(ThemeListEntry { summary, origin: ThemeOrigin::Dev });
    }
    for summary in it: store
        invariant
            it.seq() == all_store,
            out@.len() == all_dev.len() + it.index(),
            forall|i: int|
                0 <= i < all_dev.len() ==> (#[trigger] out@[i]).summary == all_dev[i]
                    && out@[i].origin == ThemeOrigin::Dev,
            forall|i: int|
                all_dev.len() <= i < out@.len() ==> (#[trigger] out@[i]).summary
                    == all_store[i - all_dev.len()] && out@[i].origin == ThemeOrigin::Store,
    {
        out.push(ThemeListEntry { summary, origin: ThemeOrigin::Store });
    }
    out
}

// ---------------------------------------------------------------------------
// Deleting
// ---------------------------------------------------------------------------

/// An id that is a plain name, and no path.
pub open spec fn is_plain_id(id: Seq<char>) -> bool {
    &&& id.len() > 0
    &&& !id.contains('/')
    &&& !id.contains('\\')
    &&& !contains_text(id, ".."@)
    &&& id != "."@
}

/// What a look at a skin's directory shows. The look does not follow links.
#[derive(Debug, Clone, Copy, PartialEq, Eq, Structural)]
pub struct SkinLook {
    /// The directory lies directly in the store.
    pub inside: bool,
    pub symlink: bool,
    pub is_dir: bool,
    pub has_manifest: bool,
}

/// Why a skin is not deleted, if it is not. The active selection must be turned off
/// first, and only a package in the store is ever deleted: a plain name, directly in
/// the store, no link, a directory, and with a manifest.
pub open spec fn deletion_refused(
    active: Option<Seq<char>>,
    id: Seq<char>,
    look: SkinLook,
) -> Option<Seq<char>> {
    if active == Some(id) {
        Some("请先关闭该主题再删除"@)
    } else if !is_plain_id(id) {
        Some("非法皮肤 id: "@ + id)
    } else if !look.inside {
        Some("路径越界，拒绝删除"@)
    } else if look.symlink {
        Some(id + " 是符号链接，拒绝删除"@)
    } else if !look.is_dir {
        Some("商店中没有该皮肤: "@ + id)
    } else if !look.has_manifest {
        Some(id + " 不是有效皮肤目录，拒绝删除"@)
    } else {
        None
    }
}

fn holds_char(s: &[char], c: char) -> (r: bool)
    ensures
        r == s@.contains(c),
{
    proof {
        lemma_index(s@, c);
    }
    let found = index_of(s, c);
    proof {
        if s@.contains(c) {
            let k = choose|k: int| 0 <= k < s@.len() && s@[k] == c;
            assert(s@[k] == c);
        }
    }
    found.is_some()
}

/// Whether an id is a plain name.
pub fn plain_skin_id(id: &str) -> (r: bool)
    ensures
        r == is_plain_id(id@),
{
    let all = chars_of(id);
    let s = all.as_slice();
    s.len() > 0 && !holds_char(s, '/') && !holds_char(s, '\\') && !contains(s, "..") && !same_str(
        s,
        ".",
    )
}

/// Lets a skin be deleted, or says why not.
pub fn delete_store_skin(active: &Option<String>, skin_id: &str, look: SkinLook) -> (r: Result<
    (),
    AppError,
>)
    ensures
        match r {
            Ok(()) => deletion_refused(text_view(*active), skin_id@, look) is None,
            Err(e) => deletion_refused(text_view(*active), skin_id@, look) == Some(e@.words())
                && e@ is Engine,
        },
{
    let is_active = match active {
        Some(a) => str_eq(a.as_str(), skin_id),
        None => false,
    };
    if is_active {
        return Err(engine("请先关闭该主题再删除"));
    }
    if !plain_skin_id(skin_id) {
        return Err(AppError::Engine(said("非法皮肤 id: ", skin_id)));
    }
    if !look.inside {
        return Err(engine("路径越界，拒绝删除"));
    }
    if look.symlink {
        return Err(AppError::Engine(said(skin_id, " 是符号链接，拒绝删除")));
    }
    if !look.is_dir {
        return Err(AppError::Engine(said("商店中没有该皮肤: ", skin_id)));
    }
    if !look.has_manifest {
        return Err(AppError::Engine(said(skin_id, " 不是有效皮肤目录，拒绝删除")));
    }
    Ok(())
}

/// What is deleted is a package directly in the store, never a link, never something
/// outside it, and never the active theme.
pub proof fn law_only_store_packages_are_deleted(
    active: Option<Seq<char>>,
    id: Seq<char>,
    look: SkinLook,
)
    requires
        deletion_refused(active, id, look) is None,
    ensures
        active != Some(id),
        !id.contains('/') && !id.contains('\\') && id != "."@ && id != ".."@,
        look.inside && !look.symlink && look.is_dir && look.has_manifest,
{
    if id == ".."@ {
        assert(id.subrange(0, id.len() as int) =~= ".."@);
        assert(crate::text::occurs_at(id, ".."@, 0));
    }
}

// ---------------------------------------------------------------------------
// Moving the store
// ---------------------------------------------------------------------------

/// What became of the skins when the store moved.
#[derive(Debug)]
pub struct StoreMigrationReport {
    pub from: String,
    pub to: String,
    pub moved: Vec<String>,
    /// Skins that stayed because the destination already had them.
    pub skipped: Vec<String>,
}

/// An entry of the old store.
#[derive(Debug)]
pub struct StoreEntry {
    pub name: String,
    /// It is a directory that loads as a package.
    pub package: bool,
    /// The new store has something of that name.
    pub taken: bool,
}

/// The names of the packages that are taken, or that are not, in order.
pub open spec fn names(entries: Seq<StoreEntry>, taken: bool) -> Seq<Seq<char>>
    decreases entries.len(),
{
    if entries.len() == 0 {
        Seq::empty()
    } else {
        let rest = names(entries.drop_last(), taken);
        let last = entries.last();
        if last.package && last.taken == taken {
            rest.push(last.name@)
        } else {
            rest
        }
    }
}

/// Which skins move to the new store. A skin whose name is taken there stays, and
/// what is no package is left alone.
pub fn migrate_store(from: &str, to: &str, entries: &Vec<StoreEntry>) -> (r: StoreMigrationReport)
    ensures
        r.from@ == from@,
        r.to@ == to@,
        texts_of(r.moved@) == names(entries@, false),
        texts_of(r.skipped@) == names(entries@, true),
{
    let mut moved: Vec<String> = Vec::new();
    let mut skipped: Vec<String> = Vec::new();
    let mut i: usize = 0;
    assert(texts_of(moved@) =~= Seq::<Seq<char>>::empty());
    assert(texts_of(skipped@) =~= Seq::<Seq<char>>::empty());
    while i < entries.len()
        invariant
            i <= entries@.len(),
            texts_of(moved@) == names(entries@.take(i as int), false),
            texts_of(skipped@) == names(entries@.take(i as int), true),
        decreases entries@.len() - i,
    {
        let ghost more = entries@.take(i + 1);
        assert(more.drop_last() == entries@.take(i as int));
        assert(more.last() == entries@[i as int]);
        let entry = &entries[i];
        if entry.package {
            let ghost was_moved = texts_of(moved@);
            let ghost was_skipped = texts_of(skipped@);
            if entry.taken {
                skipped.push(text_of(entry.name.as_str()));
                assert(texts_of(skipped@) =~= was_skipped.push(entry.name@));
            } else {
                moved.push(text_of(entry.name.as_str()));
                assert(texts_of(moved@) =~= was_moved.push(entry.name@));
            }
        }
        i += 1;
    }
    assert(entries@.take(i as int) == entries@);
    StoreMigrationReport { from: text_of(from), to: text_of(to), moved, skipped }
}

/// Nothing at the destination is overwritten: a skin that moves has a name that was
/// free there.
pub proof fn law_migration_overwrites_nothing(entries: Seq<StoreEntry>, i: int)
    requires
        0 <= i < names(entries, false).len(),
    ensures
        exists|k: int|
            0 <= k < entries.len() && (#[trigger] entries[k]).name@ == names(entries, false)[i]
                && entries[k].package && !entries[k].taken,
    decreases entries.len(),
{
    let rest = names(entries.drop_last(), false);
    let last = entries.len() - 1;
    if last >= 0 {
        if i < rest.len() {
            law_migration_overwrites_nothing(entries.drop_last(), i);
            let k = choose|k: int|
                0 <= k < entries.drop_last().len() && (#[trigger] entries.drop_last()[k]).name@
                    == rest[i] && entries.drop_last()[k].package
                    && !entries.drop_last()[k].taken;
            assert(entries[k] == entries.drop_last()[k]);
        } else {
            assert(entries[last].name@ == names(entries, false)[i]);
        }
    }
}

/// How a picked directory lies to the current store.
#[derive(Debug, Clone, Copy, PartialEq, Eq, Structural)]
pub struct StoreNesting {
    pub same: bool,
    /// The picked directory lies in the current store.
    pub inside: bool,
    /// The current store lies in the picked directory.
    pub around: bool,
}

/// Whether the store moves to a picked directory. It stays where it is, and a
/// directory in it or around it is refused.
pub fn store_moves(nesting: StoreNesting) -> (r: Result<bool, AppError>)
    ensures
        match r {
            Ok(moves) => moves == !nesting.same && (nesting.same || (!nesting.inside
                && !nesting.around)),
            Err(e) => !nesting.same && (nesting.inside || nesting.around) && e@
                == ErrorView::Engine("新目录不能嵌套在当前主题目录内"@),
        },
{
    if nesting.same {
        return Ok(false);
    }
    if nesting.inside || nesting.around {
        return Err(engine("新目录不能嵌套在当前主题目录内"));
    }
    Ok(true)
}

/// Whether a live directive follows the store: it pointed into the old one, and the
/// package is in the new one.
pub fn rebase_directive(was_inside: bool, manifest_at_new_place: bool) -> (r: bool)
    ensures
        r == (was_inside && manifest_at_new_place),
{
    was_inside && manifest_at_new_place
}

/// The steps of moving a directory: a rename, or else a copy and the removal of the
/// source.
#[derive(Debug, Clone, Copy, PartialEq, Eq, Structural)]
pub enum MoveStep {
    Rename,
    CopyTree,
    RemoveSource,
    Finished,
}

/// Moving a directory.
#[derive(Debug)]
pub struct MoveFlow {
    pub step: MoveStep,
    pub error: Option<AppError>,
}

/// The next step of moving `source` and its error. A rename that fails is no error.
pub open spec fn move_next(
    source: Seq<char>,
    step: MoveStep,
    error: Option<ErrorView>,
    failure: Option<Seq<char>>,
) -> (MoveStep, Option<ErrorView>) {
    match (step, failure) {
        (MoveStep::Rename, None) => (MoveStep::Finished, error),
        (MoveStep::Rename, Some(_)) => (MoveStep::CopyTree, error),
        (MoveStep::CopyTree, None) => (MoveStep::RemoveSource, error),
        (MoveStep::CopyTree, Some(e)) => (
            MoveStep::Finished,
            Some(ErrorView::Internal("迁移 "@ + source + " 失败: "@ + e)),
        ),
        (MoveStep::RemoveSource, None) => (MoveStep::Finished, error),
        (MoveStep::RemoveSource, Some(e)) => (
            MoveStep::Finished,
            Some(ErrorView::Internal("清理旧目录失败: "@ + e)),
        ),
        (MoveStep::Finished, _) => (MoveStep::Finished, error),
    }
}

impl MoveFlow {
    /// A move that has not begun.
    pub fn start() -> (r: MoveFlow)
        ensures
            r.step == MoveStep::Rename,
            r.error is None,
    {
        MoveFlow { step: MoveStep::Rename, error: None }
    }

    /// Takes in how the current step went; `failure` says why it failed.
    pub fn advance(&mut self, source: &str, failure: Option<String>)
        ensures
            move_next(
                source@,
                old(self).step,
                error_view(old(self).error),
                text_view(failure),
            ) == (final(self).step, error_view(final(self).error)),
    {
        match (self.step, failure) {
            (MoveStep::Rename, Some(_)) => {
                self.step = MoveStep::CopyTree;
            },
            (MoveStep::CopyTree, None) => {
                self.step = MoveStep::RemoveSource;
            },
            (MoveStep::CopyTree, Some(e)) => {
                let mut words = chars_of("迁移 ");
                push_str(&mut words, source);
                push_str(&mut words, " 失败: ");
                push_str(&mut words, e.as_str());
                self.error = Some(AppError::Internal(string_of(words.as_slice())));
                self.step = MoveStep::Finished;
            },
            (MoveStep::RemoveSource, Some(e)) => {
                self.error = Some(AppError::Internal(said("清理旧目录失败: ", e.as_str())));
                self.step = MoveStep::Finished;
            },
            _ => {
                self.step = MoveStep::Finished;
            },
        }
    }
}

/// Whether the content is under its old name and under its new one.
pub struct MovedTree {
    pub at_source: bool,
    pub at_destination: bool,
}

/// What a step of a move does. A copy that fails may be there in part, which does not
/// count as the content.
pub open spec fn move_effect(step: MoveStep, failed: bool, was: MovedTree) -> MovedTree {
    if failed {
        was
    } else {
        match step {
            MoveStep::Rename => MovedTree { at_source: false, at_destination: true },
            MoveStep::CopyTree => MovedTree { at_destination: true, ..was },
            MoveStep::RemoveSource => MovedTree { at_source: false, ..was },
            MoveStep::Finished => was,
        }
    }
}

/// What holds at each step of a move.
pub open spec fn move_holds(step: MoveStep, error: Option<ErrorView>, tree: MovedTree) -> bool {
    match step {
        MoveStep::Rename => tree.at_source && error is None,
        MoveStep::CopyTree => tree.at_source && error is None,
        MoveStep::RemoveSource => tree.at_source && tree.at_destination && error is None,
        MoveStep::Finished => if error is None {
            tree.at_destination && !tree.at_source
        } else {
            tree.at_source
        },
    }
}

/// A move never loses the content: without an error it is at the new place alone, and
/// with one it is still at the old place.
pub proof fn law_move_loses_nothing(
    source: Seq<char>,
    step: MoveStep,
    error: Option<ErrorView>,
    failure: Option<Seq<char>>,
    tree: MovedTree,
)
    requires
        move_holds(step, error, tree),
        step != MoveStep::Finished,
    ensures
        ({
            let (next, err) = move_next(source, step, error, failure);
            move_holds(next, err, move_effect(step, failure is Some, tree))
        }),
{
}

} // verus!
