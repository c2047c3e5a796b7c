//! What the check of an installation root promises, told by the place that it looks at.

use vstd::prelude::*;
use crate::errors::ErrorView;
use crate::install_root::{
    backslashed, is_cleaning, is_top, is_trial, is_within, key_of, picked_look, probe_end,
    probe_name, probe_next, probe_words, root_end, root_next, within_any, PathShape, ProbeEvent,
    ProbeStep, ProbeTurn, RootEvent, RootLook, RootStep,
};
use crate::text::{ascii_lower, begins_with, lowered, only, strip_back, trimmed};

verus! {

// ---------------------------------------------------------------------------
// Which places pass
// ---------------------------------------------------------------------------

/// A place as it is: what a look at it shows, what it holds, whether a directory can be
/// replaced beside it, and the free space where that is known.
pub struct Place {
    pub look: RootLook,
    pub empty: bool,
    pub portable: bool,
    pub replaceable: bool,
    pub free: Option<u64>,
}

/// Whether a step's answer is the one that the place gives.
pub open spec fn answers(place: Place, step: RootStep, event: RootEvent) -> bool {
    match step {
        RootStep::Look => event == RootEvent::Seen(place.look),
        RootStep::ListDir => (event is Yes || event is No) && (event is Yes <==> place.empty),
        RootStep::ProbePortable => (event is Yes || event is No) && (event is Yes
            <==> place.portable),
        RootStep::ProbeParent => event is Failed <==> !place.replaceable,
        RootStep::MeasureSpace => event == RootEvent::Space(place.free),
        RootStep::Finished => true,
    }
}

/// Whether all answers in a row are those of the place.
pub open spec fn all_answered(place: Place, events: Seq<RootEvent>) -> bool
    decreases events.len(),
{
    events.len() == 0 || (all_answered(place, events.drop_last()) && answers(
        place,
        root_end(events.drop_last()).0,
        events.last(),
    ))
}

/// The content of a place is no reason against it: nothing is there, or a directory that is
/// empty or holds the portable application.
pub open spec fn content_is_fine(place: Place) -> bool {
    !place.look.exists || (place.look.is_dir && (place.empty || place.portable))
}

/// A place that can be used.
pub open spec fn fits(place: Place) -> bool {
    &&& place.look.absolute
    &&& !place.look.protected
    &&& content_is_fine(place)
    &&& place.replaceable
    &&& place.free is None || place.free->0 >= 1024 * 1024 * 1024
}

/// What is known at each step of the check of a place.
pub open spec fn check_knows(place: Place, step: RootStep, error: Option<ErrorView>) -> bool {
    let look = place.look;
    let allowed = look.absolute && !look.protected;
    match step {
        RootStep::Look => error is None,
        RootStep::ListDir => error is None && allowed && look.exists && look.is_dir,
        RootStep::ProbePortable => error is None && allowed && look.exists && look.is_dir
            && !place.empty,
        RootStep::ProbeParent => error is None && allowed && content_is_fine(place),
        RootStep::MeasureSpace => error is None && allowed && content_is_fine(place)
            && place.replaceable,
        RootStep::Finished => {
            &&& error is None <==> fits(place)
            &&& !look.absolute ==> error == Some(
                ErrorView::Internal("安装位置必须是绝对路径"@),
            )
            &&& look.absolute && look.exists && !look.is_dir ==> error == Some(
                ErrorView::Internal("安装位置必须是文件夹"@),
            )
            &&& look.absolute && (look.exists ==> look.is_dir) && look.protected ==> error
                == Some(
                ErrorView::Internal("安装位置不能放在系统目录、管理员目录或磁盘根目录"@),
            )
            &&& allowed && look.exists && look.is_dir && !place.empty && !place.portable
                ==> error == Some(
                ErrorView::Internal("安装位置必须是空文件夹，或已有的 Codex 免安装版目录"@),
            )
            &&& allowed && content_is_fine(place) && place.replaceable && !fits(place)
                ==> error == Some(ErrorView::Internal("安装位置所在磁盘剩余空间不足"@))
        },
    }
}

/// How many answers the check still needs at most.
pub open spec fn answers_left(step: RootStep) -> nat {
    match step {
        RootStep::Look => 5,
        RootStep::ListDir => 4,
        RootStep::ProbePortable => 3,
        RootStep::ProbeParent => 2,
        RootStep::MeasureSpace => 1,
        RootStep::Finished => 0,
    }
}

/// A place passes the check if and only if it is absolute and not protected, nothing is there
/// or a directory that is empty or holds the portable application, a directory can be replaced
/// beside it, and the free space is unknown or at least one gibibyte. Each of the other places
/// is refused for what is wrong with it; in particular a directory is refused for its content
/// only where it is not empty. The check needs five answers at most.
pub proof fn law_places_that_fit_pass_the_check(place: Place, events: Seq<RootEvent>)
    requires
        all_answered(place, events),
    ensures
        check_knows(place, root_end(events).0, root_end(events).1),
        root_end(events).0 == RootStep::Finished && fits(place) ==> root_end(events).1 is None,
        events.len() >= 5 ==> root_end(events).0 == RootStep::Finished,
        root_end(events).0 != RootStep::Finished ==> events.len() + answers_left(root_end(events).0)
            <= 5,
    decreases events.len(),
{
    if events.len() > 0 {
        let before = events.drop_last();
        law_places_that_fit_pass_the_check(place, before);
        let (step, error) = root_end(before);
        let event = events.last();
        let (next, err) = root_next(step, error, event);
        assert(root_end(events) == (next, err));
        assert(check_knows(place, next, err));
    }
}

/// A step that fails ends the check with its error; only then is the error not one of the
/// check's own.
pub proof fn law_failures_end_the_check(
    step: RootStep,
    error: Option<ErrorView>,
    event: RootEvent,
)
    requires
        step != RootStep::Finished,
        event is Failed,
    ensures
        root_next(step, error, event) == (RootStep::Finished, Some(event->Failed_0@)),
{
}

/// What a look at a picked directory means, for each kind of place. A directory is listed
/// where it is there and may be used.
pub proof fn law_picked_places_are_told_apart(raw: Seq<char>, look: RootLook)
    ensures
        trimmed(raw).len() == 0 ==> picked_look(raw, look) == Err::<bool, ErrorView>(
            ErrorView::Internal("安装位置不能为空"@),
        ),
        trimmed(raw).len() > 0 && !look.absolute ==> picked_look(raw, look) == Err::<
            bool,
            ErrorView,
        >(ErrorView::Internal("安装位置必须是绝对路径"@)),
        trimmed(raw).len() > 0 && look.absolute && look.exists && !look.is_dir ==> picked_look(
            raw,
            look,
        ) == Err::<bool, ErrorView>(ErrorView::Internal("安装位置必须是文件夹"@)),
        trimmed(raw).len() > 0 && look.absolute && look.exists && look.is_dir ==> picked_look(
            raw,
            look,
        ) == Ok::<bool, ErrorView>(!look.protected),
        trimmed(raw).len() > 0 && look.absolute && !look.exists ==> picked_look(raw, look) == Ok::<
            bool,
            ErrorView,
        >(false),
{
}

/// A path is at the top unless it has a parent and, where it has a root, three components.
pub proof fn law_top_paths_are_told_by_their_shape(shape: PathShape)
    ensures
        !shape.has_parent ==> is_top(shape),
        shape.has_parent && !shape.has_root ==> !is_top(shape),
        shape.has_parent && shape.has_root && shape.components < 3 ==> is_top(shape),
        shape.has_parent && shape.has_root && shape.components >= 3 ==> !is_top(shape),
{
}

// ---------------------------------------------------------------------------
// The trial beside the place
// ---------------------------------------------------------------------------

/// What a trial has done: each is set only by its step, and only if that went well.
pub struct TrialFacts {
    pub created: bool,
    pub written: bool,
    pub renamed: bool,
    /// A step of the trial proper failed.
    pub failed: bool,
    pub looked_at_source: bool,
    pub looked_at_destination: bool,
}

/// What a step adds to what was done.
pub open spec fn trial_sees(step: ProbeStep, event: ProbeEvent, was: TrialFacts) -> TrialFacts {
    let failed = event is Failed;
    match step {
        ProbeStep::CreateSource => TrialFacts { created: !failed, failed, ..was },
        ProbeStep::WriteFile => TrialFacts { written: !failed, failed, ..was },
        ProbeStep::Rename => TrialFacts { renamed: !failed, failed, ..was },
        ProbeStep::LookSource => TrialFacts { looked_at_source: true, ..was },
        ProbeStep::LookDestination => TrialFacts { looked_at_destination: true, ..was },
        _ => was,
    }
}

/// What holds at each step of a trial.
pub open spec fn trial_holds(step: ProbeStep, facts: TrialFacts) -> bool {
    let done = facts.failed || (facts.created && facts.written && facts.renamed);
    match step {
        ProbeStep::CreateSource => !facts.failed,
        ProbeStep::WriteFile => !facts.failed && facts.created,
        ProbeStep::Rename => !facts.failed && facts.created && facts.written,
        ProbeStep::LookSource => done,
        ProbeStep::CleanSource => done && facts.looked_at_source,
        ProbeStep::LookDestination => done && facts.looked_at_source,
        ProbeStep::CleanDestination => done && facts.looked_at_source
            && facts.looked_at_destination,
        ProbeStep::Finished => done && facts.looked_at_source && facts.looked_at_destination,
    }
}

/// How many steps of a trial can still come at most.
pub open spec fn trial_left(step: ProbeStep) -> nat {
    match step {
        ProbeStep::CreateSource => 7,
        ProbeStep::WriteFile => 6,
        ProbeStep::Rename => 5,
        ProbeStep::LookSource => 4,
        ProbeStep::CleanSource => 3,
        ProbeStep::LookDestination => 2,
        ProbeStep::CleanDestination => 1,
        ProbeStep::Finished => 0,
    }
}

/// A trial in which nothing fails creates a directory, writes a file into it and renames it;
/// whatever happens, it then looks for both directories, cleans up each that is there, and
/// comes to an end. A failure counts against the place where it is one of those three steps,
/// and as a failed cleaning where it is one of the two that clean up.
pub proof fn law_trial_is_complete(step: ProbeStep, event: ProbeEvent, facts: TrialFacts)
    requires
        trial_holds(step, facts),
        step != ProbeStep::Finished,
    ensures
        ({
            let next = probe_next(step, event is Failed, event is Yes);
            &&& trial_holds(next, trial_sees(step, event, facts))
            &&& trial_left(next) < trial_left(step)
            &&& step == ProbeStep::LookSource ==> (next == ProbeStep::CleanSource
                <==> event is Yes)
            &&& step == ProbeStep::LookDestination ==> (next == ProbeStep::CleanDestination
                <==> event is Yes)
        }),
        is_trial(step) <==> trial_left(step) >= 5,
        is_cleaning(step) <==> trial_left(step) == 3 || trial_left(step) == 1,
{
}

/// What a row of steps has done.
pub open spec fn trial_done(turns: Seq<ProbeTurn>) -> TrialFacts
    decreases turns.len(),
{
    if turns.len() == 0 {
        TrialFacts {
            created: false,
            written: false,
            renamed: false,
            failed: false,
            looked_at_source: false,
            looked_at_destination: false,
        }
    } else {
        let before = turns.drop_last();
        trial_sees(probe_end(before).0, turns.last().event, trial_done(before))
    }
}

/// Over a whole trial: it takes seven steps at most, and once it has ended, a directory was
/// created, written into and renamed unless one of these failed, and both directories were
/// looked for.
pub proof fn law_every_trial_is_complete(turns: Seq<ProbeTurn>)
    ensures
        trial_holds(probe_end(turns).0, trial_done(turns)),
        turns.len() >= 7 ==> probe_end(turns).0 == ProbeStep::Finished,
        probe_end(turns).0 != ProbeStep::Finished ==> turns.len() + trial_left(probe_end(turns).0)
            <= 7,
    decreases turns.len(),
{
    if turns.len() > 0 {
        let before = turns.drop_last();
        law_every_trial_is_complete(before);
        let step = probe_end(before).0;
        if step != ProbeStep::Finished {
            law_trial_is_complete(step, turns.last().event, trial_done(before));
        }
    }
}

/// What is said of a trial holds the reason of each thing that failed.
pub proof fn law_trial_words_hold_the_reasons(probe: Seq<char>, cleanup: Seq<char>)
    ensures
        probe_words(None, None) is None,
        probe_words(Some(probe), None) == Some(
            "安装位置父目录不可写或不支持目录替换: "@ + probe,
        ),
        probe_words(None, Some(cleanup)) == Some("安装位置探测目录清理失败: "@ + cleanup),
        probe_words(Some(probe), Some(cleanup)) == Some(
            "安装位置父目录不可写或不支持目录替换: "@ + probe + "; 探测目录清理也失败: "@
                + cleanup,
        ),
{
}

// ---------------------------------------------------------------------------
// Comparing paths
// ---------------------------------------------------------------------------

/// A separator of Windows paths.
pub open spec fn is_separator(c: char) -> bool {
    c == '/' || c == '\\'
}

/// Whether two characters are the same in a path: separators, and letters of either case.
pub open spec fn same_in_paths(a: char, b: char) -> bool {
    (is_separator(a) && is_separator(b)) || ascii_lower(a) == ascii_lower(b)
}

proof fn lemma_strip_no_back(s: Seq<char>)
    requires
        s.len() > 0 ==> s.last() != '\\',
    ensures
        strip_back(s, only('\\')) == s,
{
}

proof fn lemma_strip_is_prefix(s: Seq<char>)
    ensures
        strip_back(s, only('\\')).len() <= s.len(),
        strip_back(s, only('\\')) == s.take(strip_back(s, only('\\')).len() as int),
        forall|i: int|
            strip_back(s, only('\\')).len() <= i < s.len() ==> #[trigger] s[i] == '\\',
    decreases s.len(),
{
    if s.len() > 0 && s.last() == '\\' {
        lemma_strip_is_prefix(s.drop_last());
        let short = strip_back(s.drop_last(), only('\\'));
        assert(strip_back(s, only('\\')) == short);
        assert(s.take(short.len() as int) =~= s.drop_last().take(short.len() as int));
        assert forall|i: int| short.len() <= i < s.len() implies #[trigger] s[i] == '\\' by {
            if i < s.len() - 1 {
                assert(s.drop_last()[i] == '\\');
            }
        }
    } else {
        assert(s.take(s.len() as int) =~= s);
    }
}

/// What is named below a directory lies within it, with either separator.
pub proof fn law_paths_below_lie_within(root: Seq<char>, separator: char, rest: Seq<char>)
    requires
        is_separator(separator),
        rest.len() > 0,
        !is_separator(rest.last()),
    ensures
        is_within(root.push(separator) + rest, root),
{
    reveal_strlit("\\");
    let path = root.push(separator) + rest;
    let b = backslashed(path);
    assert(b.last() == rest.last());
    lemma_strip_no_back(b);
    lemma_strip_is_prefix(backslashed(root));
    let short = strip_back(backslashed(root), only('\\'));
    let k = key_of(path);
    let q = key_of(root) + "\\"@;
    assert(k.len() == path.len());
    assert(k.subrange(0, q.len() as int) =~= q) by {
        assert forall|i: int| 0 <= i < q.len() implies k[i] == q[i] by {
            if i < short.len() {
                assert(short[i] == backslashed(root)[i]);
                assert(b[i] == backslashed(root)[i]);
                assert(path[i] == root[i]);
            } else if i < root.len() {
                assert(backslashed(root)[i] == '\\');
                assert(path[i] == root[i]);
                assert(b[i] == '\\');
            } else {
                assert(path[i] == separator);
                assert(b[i] == '\\');
            }
        }
    }
}

/// A name that only begins like a directory does not lie within it.
pub proof fn law_longer_names_lie_elsewhere(root: Seq<char>, rest: Seq<char>)
    requires
        root.len() > 0,
        !is_separator(root.last()),
        rest.len() > 0,
        !is_separator(rest[0]),
    ensures
        !is_within(root + rest, root),
{
    reveal_strlit("\\");
    let path = root + rest;
    let b = backslashed(path);
    let n = root.len() as int;
    assert(backslashed(root).last() == root.last());
    lemma_strip_no_back(backslashed(root));
    lemma_strip_is_prefix(b);
    let k = key_of(path);
    let q = key_of(root) + "\\"@;
    let short = strip_back(b, only('\\'));
    assert(path[n] == rest[0]);
    assert(b[n] == rest[0]);
    assert(short.len() > n);
    assert(k[n] == ascii_lower(rest[0]));
    assert(key_of(root).len() == n);
    if begins_with(k, q) {
        assert(k.subrange(0, q.len() as int)[n] == q[n]);
    }
}

/// A directory lies within itself, whichever separator stands at its end.
pub proof fn law_directories_lie_within_themselves(root: Seq<char>, separator: char)
    requires
        is_separator(separator),
    ensures
        is_within(root, root),
        is_within(root.push(separator), root),
        is_within(root, root.push(separator)),
{
    let b = backslashed(root.push(separator));
    assert(b.last() == '\\');
    assert(b.drop_last() =~= backslashed(root));
    assert(strip_back(b, only('\\')) == strip_back(b.drop_last(), only('\\')));
}

/// Paths are told apart without regard to case or to the kind of separator.
pub proof fn law_case_and_separators_do_not_matter(a: Seq<char>, b: Seq<char>)
    requires
        a.len() == b.len(),
        forall|i: int| 0 <= i < a.len() ==> #[trigger] same_in_paths(a[i], b[i]),
    ensures
        key_of(a) == key_of(b),
{
    let x = backslashed(a);
    let y = backslashed(b);
    assert forall|i: int| 0 <= i < x.len() implies #[trigger] alike(x[i], y[i]) by {
        assert(same_in_paths(a[i], b[i]));
    }
    lemma_strip_alike(x, y);
}

/// Whether two characters differ in case alone, and both are backslashes or neither is.
pub open spec fn alike(a: char, b: char) -> bool {
    ascii_lower(a) == ascii_lower(b) && (a == '\\' <==> b == '\\')
}

proof fn lemma_strip_alike(x: Seq<char>, y: Seq<char>)
    requires
        x.len() == y.len(),
        forall|i: int| 0 <= i < x.len() ==> #[trigger] alike(x[i], y[i]),
    ensures
        lowered(strip_back(x, only('\\'))) == lowered(strip_back(y, only('\\'))),
    decreases x.len(),
{
    if x.len() > 0 {
        let n = x.len() - 1;
        assert(alike(x[n], y[n]));
        if x[n] == '\\' {
            let p = x.drop_last();
            let q = y.drop_last();
            assert forall|i: int| 0 <= i < p.len() implies #[trigger] alike(p[i], q[i]) by {
                assert(alike(x[i], y[i]));
            }
            lemma_strip_alike(p, q);
        } else {
            assert(lowered(x) =~= lowered(y)) by {
                assert forall|i: int| 0 <= i < x.len() implies lowered(x)[i] == lowered(y)[i] by {
                    assert(alike(x[i], y[i]));
                }
            }
        }
    } else {
        assert(x =~= y);
    }
}

/// A path lies within some directory of a list exactly where it lies within one of them.
pub proof fn law_lists_of_directories_are_searched(path: Seq<char>, roots: Seq<String>, root: String)
    ensures
        within_any(path, roots.push(root)) <==> within_any(path, roots) || is_within(path, root@),
        !within_any(path, Seq::empty()),
{
    let all = roots.push(root);
    if within_any(path, all) {
        let k = choose|k: int| 0 <= k < all.len() && is_within(path, (#[trigger] all[k])@);
        if k < roots.len() {
            assert(all[k] == roots[k]);
        }
    }
    if within_any(path, roots) {
        let k = choose|k: int| 0 <= k < roots.len() && is_within(path, (#[trigger] roots[k])@);
        assert(all[k] == roots[k]);
    }
    assert(all[roots.len() as int] == root);
}

/// The directories of a trial are named after it, under a name that hides them.
pub proof fn law_trial_directories_are_named(id: Seq<char>, role: Seq<char>)
    ensures
        probe_name(id, role) == ".codex-manager-install-test-"@ + id + role,
{
}

} // verus!
