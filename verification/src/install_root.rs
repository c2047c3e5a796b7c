//! Where the portable application may be installed.

use vstd::prelude::*;
use crate::errors::{internal, said, AppError, ErrorView};
use crate::file_swap::error_view;
use crate::text::{
    begins, begins_with, chars_of, copy_of, lower, lowered, only, push_str, same, string_of,
    strip_back, trim, trim_end_of, trimmed,
};
use crate::url_policy::text_view;

verus! {

/// The space that the portable application needs, in bytes.
pub const MIN_PORTABLE_FREE_SPACE_BYTES: u64 = 1073741824;

/// The beginning of the names of probe directories.
pub const INSTALL_LOCATION_PROBE_PREFIX: &'static str = ".codex-manager-install-test-";

// ---------------------------------------------------------------------------
// Paths as texts
// ---------------------------------------------------------------------------

/// A path with backslashes for slashes.
pub open spec fn backslashed(path: Seq<char>) -> Seq<char> {
    path.map_values(|c: char|
        if c == '/' {
            '\\'
        } else {
            c
        })
}

/// A path in the form in which paths are compared: with backslashes, without one at
/// its end, in lower case.
pub open spec fn key_of(path: Seq<char>) -> Seq<char> {
    lowered(strip_back(backslashed(path), only('\\')))
}

/// Whether a path is a directory or lies below it.
pub open spec fn is_within(path: Seq<char>, root: Seq<char>) -> bool {
    key_of(path) == key_of(root) || begins_with(key_of(path), key_of(root) + "\\"@)
}

/// A path in the form in which paths are compared.
pub fn path_key(path: &str) -> (r: Vec<char>)
    ensures
        r@ == key_of(path@),
{
    let all = chars_of(path);
    let mut turned: Vec<char> = Vec::new();
    let mut i: usize = 0;
    while i < all.len()
        invariant
            i <= all@.len(),
            all@ == path@,
            turned@ == backslashed(path@.take(i as int)),
        decreases all@.len() - i,
    {
        let c = all[i];
        let t = if c == '/' {
            '\\'
        } else {
            c
        };
        turned.push(t);
        assert(backslashed(path@.take(i + 1)) == backslashed(path@.take(i as int)).push(t));
        i += 1;
    }
    assert(path@.take(path@.len() as int) == path@);
    let short = trim_end_of(turned.as_slice(), '\\');
    lower(short)
}

/// Whether a path is a directory or lies below it.
pub fn path_is_equal_or_child(path: &str, root: &str) -> (r: bool)
    ensures
        r == is_within(path@, root@),
{
    let p = path_key(path);
    let mut q = path_key(root);
    let equal = same(p.as_slice(), q.as_slice());
    push_str(&mut q, "\\");
    equal || begins(p.as_slice(), q.as_slice())
}

/// What lies below something that lies below a directory lies below that directory.
pub proof fn law_within_is_transitive(a: Seq<char>, b: Seq<char>, c: Seq<char>)
    requires
        is_within(a, b),
        is_within(b, c),
    ensures
        is_within(a, c),
{
    reveal_strlit("\\");
    let ka = key_of(a);
    let kb = key_of(b);
    let kc = key_of(c);
    if ka != kb && kb != kc {
        let n = kc.len() + 1;
        assert(kb.subrange(0, n as int) == kc + "\\"@);
        assert(ka.subrange(0, (kb.len() + 1) as int) == kb + "\\"@);
        assert(ka.subrange(0, n as int) =~= kb.subrange(0, n as int)) by {
            assert forall|i: int| 0 <= i < n implies ka[i] == kb[i] by {
                assert((kb + "\\"@)[i] == kb[i]);
                assert(ka.subrange(0, (kb.len() + 1) as int)[i] == ka[i]);
            }
        }
    }
}

/// Whether a path is one of the directories or lies below one.
pub open spec fn within_any(path: Seq<char>, roots: Seq<String>) -> bool {
    exists|i: int| 0 <= i < roots.len() && is_within(path, (#[trigger] roots[i])@)
}

/// What is known of the shape of a path.
#[derive(Debug, Clone, Copy, PartialEq, Eq, Structural)]
pub struct PathShape {
    pub has_parent: bool,
    pub has_root: bool,
    pub components: usize,
}

/// Whether a path is the root of a file system, or directly below it.
pub open spec fn is_top(shape: PathShape) -> bool {
    !shape.has_parent || (shape.has_root && shape.components <= 2)
}

/// Whether a path is the root of a file system, or directly below it.
pub fn is_filesystem_root(shape: PathShape) -> (r: bool)
    ensures
        r == is_top(shape),
{
    !shape.has_parent || (shape.has_root && shape.components <= 2)
}

/// Whether a path is protected: at the top of a file system, or within a directory of
/// the system.
pub fn is_protected_install_root(path: &str, shape: PathShape, protected: &Vec<String>) -> (r: bool)
    ensures
        r == (is_top(shape) || within_any(path@, protected@)),
{
    if is_filesystem_root(shape) {
        return true;
    }
    let mut i: usize = 0;
    while i < protected.len()
        invariant
            i <= protected@.len(),
            !is_top(shape),
            forall|j: int| 0 <= j < i ==> !is_within(path@, (#[trigger] protected@[j])@),
        decreases protected@.len() - i,
    {
        if path_is_equal_or_child(path, protected[i].as_str()) {
            return true;
        }
        i += 1;
    }
    false
}

/// The index of the first directory that exists; the last one if none does.
pub fn nearest_existing_dir(exists: &Vec<bool>) -> (r: usize)
    requires
        exists@.len() > 0,
    ensures
        r < exists@.len(),
        forall|i: int| 0 <= i < r ==> !#[trigger] exists@[i],
        exists@[r as int] || r == exists@.len() - 1,
{
    let mut i: usize = 0;
    while i < exists.len() - 1 && !exists[i]
        invariant
            exists@.len() > 0,
            i <= exists@.len() - 1,
            forall|j: int| 0 <= j < i ==> !#[trigger] exists@[j],
        decreases exists@.len() - i,
    {
        i += 1;
    }
    i
}

// ---------------------------------------------------------------------------
// Checking an installation root
// ---------------------------------------------------------------------------

/// What a look at a path shows.
#[derive(Debug, Clone, Copy, PartialEq, Eq, Structural)]
pub struct RootLook {
    pub absolute: bool,
    pub exists: bool,
    pub is_dir: bool,
    pub protected: bool,
}

/// The steps of the check.
#[derive(Debug, Clone, Copy, PartialEq, Eq, Structural)]
pub enum RootStep {
    Look,
    /// Is the directory empty?
    ListDir,
    /// Is it an installation of the portable application?
    ProbePortable,
    /// Can a directory be replaced beside it?
    ProbeParent,
    MeasureSpace,
    Finished,
}

/// How a step of the check went.
#[derive(Debug)]
pub enum RootEvent {
    Seen(RootLook),
    Yes,
    No,
    /// The free space, where it is known.
    Space(Option<u64>),
    Failed(AppError),
}

/// The check of an installation root.
#[derive(Debug)]
pub struct RootCheck {
    pub path: String,
    pub step: RootStep,
    pub error: Option<AppError>,
}

/// What a look at a path means.
pub open spec fn look_verdict(look: RootLook) -> Result<RootStep, ErrorView> {
    if !look.absolute {
        Err(ErrorView::Internal("安装位置必须是绝对路径"@))
    } else if look.exists && !look.is_dir {
        Err(ErrorView::Internal("安装位置必须是文件夹"@))
    } else if look.protected {
        Err(ErrorView::Internal("安装位置不能放在系统目录、管理员目录或磁盘根目录"@))
    } else if look.exists {
        Ok(RootStep::ListDir)
    } else {
        Ok(RootStep::ProbeParent)
    }
}

/// The next step of the check and its error. A directory that is there must be empty
/// or hold the portable application; a place without enough space is refused.
pub open spec fn root_next(
    step: RootStep,
    error: Option<ErrorView>,
    event: RootEvent,
) -> (RootStep, Option<ErrorView>) {
    match (step, event) {
        (RootStep::Finished, _) => (RootStep::Finished, error),
        (_, RootEvent::Failed(e)) => (RootStep::Finished, Some(e@)),
        (RootStep::Look, RootEvent::Seen(look)) => match look_verdict(look) {
            Ok(next) => (next, error),
            Err(e) => (RootStep::Finished, Some(e)),
        },
        (RootStep::Look, _) => (RootStep::Look, error),
        (RootStep::ListDir, RootEvent::Yes) => (RootStep::ProbeParent, error),
        (RootStep::ListDir, _) => (RootStep::ProbePortable, error),
        (RootStep::ProbePortable, RootEvent::Yes) => (RootStep::ProbeParent, error),
        (RootStep::ProbePortable, _) => (
            RootStep::Finished,
            Some(ErrorView::Internal("安装位置必须是空文件夹，或已有的 Codex 免安装版目录"@)),
        ),
        (RootStep::ProbeParent, _) => (RootStep::MeasureSpace, error),
        (RootStep::MeasureSpace, RootEvent::Space(Some(free))) => if free
            < MIN_PORTABLE_FREE_SPACE_BYTES {
            (RootStep::Finished, Some(ErrorView::Internal("安装位置所在磁盘剩余空间不足"@)))
        } else {
            (RootStep::Finished, error)
        },
        (RootStep::MeasureSpace, _) => (RootStep::Finished, error),
    }
}

impl RootCheck {
    /// The check of a path, which is taken without the white space around it. An empty
    /// one is refused at once.
    pub fn start(raw: &str) -> (r: RootCheck)
        ensures
            r.path@ == trimmed(raw@),
            if trimmed(raw@).len() == 0 {
                r.step == RootStep::Finished && error_view(r.error) == Some(
                    ErrorView::Internal("安装位置不能为空"@),
                )
            } else {
                r.step == RootStep::Look && r.error is None && (r.step, error_view(r.error))
                    == root_end(Seq::empty())
            },
    {
        let all = chars_of(raw);
        let t = trim(all.as_slice());
        if t.len() == 0 {
            RootCheck {
                path: string_of(t),
                step: RootStep::Finished,
                error: Some(internal("安装位置不能为空")),
            }
        } else {
            RootCheck { path: string_of(t), step: RootStep::Look, error: None }
        }
    }

    fn refuse(&mut self, e: AppError)
        ensures
            final(self).path@ == old(self).path@,
            final(self).step == RootStep::Finished,
            error_view(final(self).error) == Some(e@),
    {
        self.step = RootStep::Finished;
        self.error = Some(e);
    }

    /// Takes in how the current step went.
    pub fn advance(&mut self, event: RootEvent)
        ensures
            final(self).path@ == old(self).path@,
            root_next(old(self).step, error_view(old(self).error), event) == (
                final(self).step,
                error_view(final(self).error),
            ),
    {
        if self.step == RootStep::Finished {
            return;
        }
        match event {
            RootEvent::Failed(e) => {
                self.refuse(e);
            },
            RootEvent::Seen(look) => {
                match self.step {
                    RootStep::Look => {
                        if !look.absolute {
                            self.refuse(internal("安装位置必须是绝对路径"));
                        } else if look.exists && !look.is_dir {
                            self.refuse(internal("安装位置必须是文件夹"));
                        } else if look.protected {
                            self.refuse(
                                internal("安装位置不能放在系统目录、管理员目录或磁盘根目录"),
                            );
                        } else if look.exists {
                            self.step = RootStep::ListDir;
                        } else {
                            self.step = RootStep::ProbeParent;
                        }
                    },
                    _ => {
                        self.plain(false);
                    },
                }
            },
            RootEvent::Yes => {
                self.plain(true);
            },
            RootEvent::No => {
                self.plain(false);
            },
            RootEvent::Space(space) => {
                match (self.step, space) {
                    (RootStep::MeasureSpace, Some(free)) => {
                        if free < MIN_PORTABLE_FREE_SPACE_BYTES {
                            self.refuse(internal("安装位置所在磁盘剩余空间不足"));
                        } else {
                            self.step = RootStep::Finished;
                        }
                    },
                    _ => {
                        self.plain(false);
                    },
                }
            },
        }
    }

    fn plain(&mut self, yes: bool)
        requires
            old(self).step != RootStep::Finished,
        ensures
            final(self).path@ == old(self).path@,
            root_next(
                old(self).step,
                error_view(old(self).error),
                if yes {
                    RootEvent::Yes
                } else {
                    RootEvent::No
                },
            ) == (final(self).step, error_view(final(self).error)),
    {
        match self.step {
            RootStep::Look => {},
            RootStep::ListDir => {
                self.step = if yes {
                    RootStep::ProbeParent
                } else {
                    RootStep::ProbePortable
                };
            },
            RootStep::ProbePortable => {
                if yes {
                    self.step = RootStep::ProbeParent;
                } else {
                    self.refuse(internal("安装位置必须是空文件夹，或已有的 Codex 免安装版目录"));
                }
            },
            RootStep::ProbeParent => {
                self.step = RootStep::MeasureSpace;
            },
            RootStep::MeasureSpace => {
                self.step = RootStep::Finished;
            },
            RootStep::Finished => {},
        }
    }

    /// The root that passed the check, or why it did not. There is no answer before
    /// the check is over.
    pub fn verdict(&self) -> (r: Option<Result<String, AppError>>)
        ensures
            match r {
                None => self.step != RootStep::Finished,
                Some(Ok(path)) => self.step == RootStep::Finished && self.error is None && path@
                    == self.path@,
                Some(Err(e)) => self.step == RootStep::Finished && error_view(self.error) == Some(
                    e@,
                ),
            },
    {
        if self.step != RootStep::Finished {
            return None;
        }
        match &self.error {
            Some(e) => Some(Err(e.copy())),
            None => {
                let path = chars_of(self.path.as_str());
                Some(Ok(string_of(path.as_slice())))
            },
        }
    }
}

/// What the check has seen so far.
pub struct RootSeen {
    pub look: Option<RootLook>,
    pub empty: Option<bool>,
    pub portable: Option<bool>,
    pub replaceable: bool,
    pub free: Option<u64>,
}

/// What a step adds to what was seen.
pub open spec fn root_sees(step: RootStep, event: RootEvent, was: RootSeen) -> RootSeen {
    match (step, event) {
        (RootStep::Look, RootEvent::Seen(look)) => RootSeen { look: Some(look), ..was },
        (RootStep::ListDir, RootEvent::Failed(_)) => was,
        (RootStep::ListDir, _) => RootSeen { empty: Some(event is Yes), ..was },
        (RootStep::ProbePortable, RootEvent::Failed(_)) => was,
        (RootStep::ProbePortable, _) => RootSeen { portable: Some(event is Yes), ..was },
        (RootStep::ProbeParent, RootEvent::Failed(_)) => was,
        (RootStep::ProbeParent, _) => RootSeen { replaceable: true, ..was },
        (RootStep::MeasureSpace, RootEvent::Space(free)) => RootSeen { free, ..was },
        _ => was,
    }
}

/// A place that may be used, as far as a look and a listing show.
pub open spec fn usable_place(seen: RootSeen) -> bool {
    seen.look matches Some(look) && look.absolute && !look.protected && (look.exists
        ==> look.is_dir && (seen.empty == Some(true) || seen.portable == Some(true)))
}

/// What holds at each step of the check.
pub open spec fn root_holds(step: RootStep, error: Option<ErrorView>, seen: RootSeen) -> bool {
    match step {
        RootStep::Look => error is None && seen.empty is None && seen.portable is None
            && !seen.replaceable && seen.free is None,
        RootStep::ListDir => error is None && (seen.look matches Some(look) && look.absolute
            && !look.protected && look.is_dir && look.exists) && seen.free is None,
        RootStep::ProbePortable => error is None && (seen.look matches Some(look) && look.absolute
            && !look.protected && look.is_dir && look.exists) && seen.free is None,
        RootStep::ProbeParent => error is None && usable_place(seen) && seen.free is None,
        RootStep::MeasureSpace => error is None && usable_place(seen) && seen.replaceable
            && seen.free is None,
        RootStep::Finished => error is None ==> usable_place(seen) && seen.replaceable && (
        seen.free matches Some(free) ==> free >= MIN_PORTABLE_FREE_SPACE_BYTES),
    }
}

/// A root that passes the check is absolute and not protected, it is free or empty or
/// holds the portable application, a directory can be replaced beside it, and there
/// is enough space where that is known.
pub proof fn law_accepted_root_is_usable(
    step: RootStep,
    error: Option<ErrorView>,
    event: RootEvent,
    seen: RootSeen,
)
    requires
        root_holds(step, error, seen),
        step != RootStep::Finished,
    ensures
        ({
            let (next, err) = root_next(step, error, event);
            root_holds(next, err, root_sees(step, event, seen))
        }),
{
}

/// The step and the error after a row of steps.
pub open spec fn root_end(events: Seq<RootEvent>) -> (RootStep, Option<ErrorView>)
    decreases events.len(),
{
    if events.len() == 0 {
        (RootStep::Look, None)
    } else {
        let (step, error) = root_end(events.drop_last());
        root_next(step, error, events.last())
    }
}

/// What a row of steps has seen.
pub open spec fn root_seen(events: Seq<RootEvent>) -> RootSeen
    decreases events.len(),
{
    if events.len() == 0 {
        RootSeen { look: None, empty: None, portable: None, replaceable: false, free: None }
    } else {
        let before = events.drop_last();
        if root_end(before).0 == RootStep::Finished {
            root_seen(before)
        } else {
            root_sees(root_end(before).0, events.last(), root_seen(before))
        }
    }
}

/// Over a whole check: a root is accepted only where everything that was to be seen
/// was seen.
pub proof fn law_every_accepted_root_is_usable(events: Seq<RootEvent>)
    ensures
        root_holds(root_end(events).0, root_end(events).1, root_seen(events)),
    decreases events.len(),
{
    if events.len() > 0 {
        let before = events.drop_last();
        law_every_accepted_root_is_usable(before);
        let (step, error) = root_end(before);
        if step != RootStep::Finished {
            law_accepted_root_is_usable(step, error, events.last(), root_seen(before));
        }
    }
}


// ---------------------------------------------------------------------------
// Trying out whether a directory can be replaced
// ---------------------------------------------------------------------------

/// The steps of the trial.
#[derive(Debug, Clone, Copy, PartialEq, Eq, Structural)]
pub enum ProbeStep {
    CreateSource,
    WriteFile,
    Rename,
    /// Is the source there?
    LookSource,
    CleanSource,
    /// Is the destination there?
    LookDestination,
    CleanDestination,
    Finished,
}

/// How a step of the trial went.
#[derive(Debug)]
pub enum ProbeEvent {
    Done,
    Yes,
    No,
    Failed(String),
}

/// The trial.
#[derive(Debug)]
pub struct ParentProbe {
    pub step: ProbeStep,
    /// Why a directory cannot be replaced.
    pub probe_error: Option<String>,
    /// Why the first failed cleaning failed.
    pub cleanup_error: Option<String>,
}

/// The next step. Whatever fails, both directories are cleaned up.
pub open spec fn probe_next(step: ProbeStep, failed: bool, yes: bool) -> ProbeStep {
    match step {
        ProbeStep::CreateSource => if failed {
            ProbeStep::LookSource
        } else {
            ProbeStep::WriteFile
        },
        ProbeStep::WriteFile => if failed {
            ProbeStep::LookSource
        } else {
            ProbeStep::Rename
        },
        ProbeStep::Rename => ProbeStep::LookSource,
        ProbeStep::LookSource => if yes {
            ProbeStep::CleanSource
        } else {
            ProbeStep::LookDestination
        },
        ProbeStep::CleanSource => ProbeStep::LookDestination,
        ProbeStep::LookDestination => if yes {
            ProbeStep::CleanDestination
        } else {
            ProbeStep::Finished
        },
        ProbeStep::CleanDestination => ProbeStep::Finished,
        ProbeStep::Finished => ProbeStep::Finished,
    }
}

/// The steps of the trial proper.
pub open spec fn is_trial(step: ProbeStep) -> bool {
    step == ProbeStep::CreateSource || step == ProbeStep::WriteFile || step == ProbeStep::Rename
}

/// The steps that clean up.
pub open spec fn is_cleaning(step: ProbeStep) -> bool {
    step == ProbeStep::CleanSource || step == ProbeStep::CleanDestination
}

impl ParentProbe {
    /// A trial that has not begun.
    pub fn start() -> (r: ParentProbe)
        ensures
            r.step == ProbeStep::CreateSource,
            r.probe_error is None,
            r.cleanup_error is None,
            (r.step, r.cleanup_error is Some) == probe_end(Seq::empty()),
    {
        ParentProbe { step: ProbeStep::CreateSource, probe_error: None, cleanup_error: None }
    }

    /// Takes in how the current step went.
    pub fn advance(&mut self, event: ProbeEvent)
        ensures
            final(self).step == probe_next(old(self).step, event is Failed, event is Yes),
            text_view(final(self).probe_error) == (if is_trial(old(self).step)
                && event is Failed {
                Some(event->Failed_0@)
            } else {
                text_view(old(self).probe_error)
            }),
            text_view(final(self).cleanup_error) == (if is_cleaning(old(self).step)
                && event is Failed && old(self).cleanup_error is None {
                Some(event->Failed_0@)
            } else {
                text_view(old(self).cleanup_error)
            }),
    {
        let yes = matches!(event, ProbeEvent::Yes);
        let failure = match event {
            ProbeEvent::Failed(e) => Some(e),
            _ => None,
        };
        let failed = failure.is_some();
        let step = self.step;
        match failure {
            Some(e) => {
                match step {
                    ProbeStep::CreateSource | ProbeStep::WriteFile | ProbeStep::Rename => {
                        self.probe_error = Some(e);
                    },
                    ProbeStep::CleanSource | ProbeStep::CleanDestination => {
                        if self.cleanup_error.is_none() {
                            self.cleanup_error = Some(e);
                        }
                    },
                    _ => {},
                }
            },
            None => {},
        }
        self.step = match step {
            ProbeStep::CreateSource => if failed {
                ProbeStep::LookSource
            } else {
                ProbeStep::WriteFile
            },
            ProbeStep::WriteFile => if failed {
                ProbeStep::LookSource
            } else {
                ProbeStep::Rename
            },
            ProbeStep::Rename => ProbeStep::LookSource,
            ProbeStep::LookSource => if yes {
                ProbeStep::CleanSource
            } else {
                ProbeStep::LookDestination
            },
            ProbeStep::CleanSource => ProbeStep::LookDestination,
            ProbeStep::LookDestination => if yes {
                ProbeStep::CleanDestination
            } else {
                ProbeStep::Finished
            },
            ProbeStep::CleanDestination | ProbeStep::Finished => ProbeStep::Finished,
        };
    }

    /// What the trial showed.
    pub fn verdict(&self) -> (r: Result<(), AppError>)
        ensures
            match r {
                Ok(()) => self.probe_error is None && self.cleanup_error is None,
                Err(e) => probe_words(
                    text_view(self.probe_error),
                    text_view(self.cleanup_error),
                ) == Some(e@.words()) && e@ is Internal,
            },
    {
        match (&self.probe_error, &self.cleanup_error) {
            (None, None) => Ok(()),
            (Some(p), None) => Err(
                AppError::Internal(said("安装位置父目录不可写或不支持目录替换: ", p.as_str())),
            ),
            (None, Some(c)) => Err(
                AppError::Internal(said("安装位置探测目录清理失败: ", c.as_str())),
            ),
            (Some(p), Some(c)) => {
                let mut words = chars_of("安装位置父目录不可写或不支持目录替换: ");
                push_str(&mut words, p.as_str());
                push_str(&mut words, "; 探测目录清理也失败: ");
                push_str(&mut words, c.as_str());
                Err(AppError::Internal(string_of(words.as_slice())))
            },
        }
    }
}

/// The words for what went wrong in a trial.
pub open spec fn probe_words(
    probe: Option<Seq<char>>,
    cleanup: Option<Seq<char>>,
) -> Option<Seq<char>> {
    match (probe, cleanup) {
        (None, None) => None,
        (Some(p), None) => Some("安装位置父目录不可写或不支持目录替换: "@ + p),
        (None, Some(c)) => Some("安装位置探测目录清理失败: "@ + c),
        (Some(p), Some(c)) => Some(
            "安装位置父目录不可写或不支持目录替换: "@ + p + "; 探测目录清理也失败: "@ + c,
        ),
    }
}

/// The two directories of a trial.
pub struct ProbeDisk {
    pub source: bool,
    pub destination: bool,
}

/// What a step of a trial can do to the disk.
pub open spec fn probe_effect(
    step: ProbeStep,
    event: ProbeEvent,
    was: ProbeDisk,
    now: ProbeDisk,
) -> bool {
    let failed = event is Failed;
    match step {
        ProbeStep::CreateSource => if failed {
            now == was
        } else {
            now == (ProbeDisk { source: true, ..was })
        },
        ProbeStep::Rename => if failed {
            now == was
        } else {
            now == (ProbeDisk { source: false, destination: true })
        },
        ProbeStep::LookSource => now == was && !failed && (event is Yes <==> was.source),
        ProbeStep::LookDestination => now == was && !failed && (event is Yes
            <==> was.destination),
        ProbeStep::CleanSource => if failed {
            now == was
        } else {
            now == (ProbeDisk { source: false, ..was })
        },
        ProbeStep::CleanDestination => if failed {
            now == was
        } else {
            now == (ProbeDisk { destination: false, ..was })
        },
        _ => now == was,
    }
}

/// What holds of the disk at each step of a trial.
pub open spec fn probe_holds(step: ProbeStep, cleanup_failed: bool, disk: ProbeDisk) -> bool {
    match step {
        ProbeStep::CreateSource => !disk.source && !disk.destination && !cleanup_failed,
        ProbeStep::WriteFile => !disk.destination && !cleanup_failed,
        ProbeStep::Rename => !disk.destination && !cleanup_failed,
        ProbeStep::LookSource => !cleanup_failed,
        ProbeStep::CleanSource => !cleanup_failed,
        ProbeStep::LookDestination => cleanup_failed || !disk.source,
        ProbeStep::CleanDestination => cleanup_failed || !disk.source,
        ProbeStep::Finished => cleanup_failed || (!disk.source && !disk.destination),
    }
}

/// A trial leaves nothing behind unless cleaning up failed, which it then reports.
pub proof fn law_trial_leaves_nothing(
    step: ProbeStep,
    cleanup_failed: bool,
    event: ProbeEvent,
    was: ProbeDisk,
    now: ProbeDisk,
)
    requires
        probe_holds(step, cleanup_failed, was),
        probe_effect(step, event, was, now),
    ensures
        probe_holds(
            probe_next(step, event is Failed, event is Yes),
            cleanup_failed || (is_cleaning(step) && event is Failed),
            now,
        ),
{
}

/// One step of a trial: how it went, and the disk after it.
pub struct ProbeTurn {
    pub event: ProbeEvent,
    pub disk: ProbeDisk,
}

/// The step after a row of steps, and whether cleaning up failed.
pub open spec fn probe_end(turns: Seq<ProbeTurn>) -> (ProbeStep, bool)
    decreases turns.len(),
{
    if turns.len() == 0 {
        (ProbeStep::CreateSource, false)
    } else {
        let (step, failed) = probe_end(turns.drop_last());
        let event = turns.last().event;
        (
            probe_next(step, event is Failed, event is Yes),
            failed || (is_cleaning(step) && event is Failed),
        )
    }
}

/// The disk after a row of steps. Neither directory is there at first.
pub open spec fn probe_disk(turns: Seq<ProbeTurn>) -> ProbeDisk {
    if turns.len() == 0 {
        ProbeDisk { source: false, destination: false }
    } else {
        turns.last().disk
    }
}

/// Whether a row of steps can happen.
pub open spec fn probe_possible(turns: Seq<ProbeTurn>) -> bool
    decreases turns.len(),
{
    turns.len() == 0 || {
        let before = turns.drop_last();
        &&& probe_possible(before)
        &&& probe_effect(
            probe_end(before).0,
            turns.last().event,
            probe_disk(before),
            turns.last().disk,
        )
    }
}

/// Over a whole trial: once it has ended, neither directory is left unless cleaning up
/// failed.
pub proof fn law_every_trial_leaves_nothing(turns: Seq<ProbeTurn>)
    requires
        probe_possible(turns),
    ensures
        probe_holds(probe_end(turns).0, probe_end(turns).1, probe_disk(turns)),
    decreases turns.len(),
{
    if turns.len() > 0 {
        let before = turns.drop_last();
        law_every_trial_leaves_nothing(before);
        let (step, failed) = probe_end(before);
        law_trial_leaves_nothing(
            step,
            failed,
            turns.last().event,
            probe_disk(before),
            turns.last().disk,
        );
    }
}


// ---------------------------------------------------------------------------
// A directory that the user picked
// ---------------------------------------------------------------------------

/// The place to check for a directory that the user picked. A directory with other
/// things in it stands for a new directory inside it.
#[derive(Debug, Clone, Copy, PartialEq, Eq, Structural)]
pub enum PickedPlace {
    Itself,
    Child,
}

impl PickedPlace {
    /// The name of the new directory inside the picked one, if it is that one.
    pub fn child_name(self) -> (r: Option<&'static str>)
        ensures
            match r {
                Some(name) => self == PickedPlace::Child && name@ == "Codex"@,
                None => self == PickedPlace::Itself,
            },
    {
        match self {
            PickedPlace::Itself => None,
            PickedPlace::Child => Some("Codex"),
        }
    }
}

/// What a look at a picked directory means: whether its content must be listed.
pub open spec fn picked_look(raw: Seq<char>, look: RootLook) -> Result<bool, ErrorView> {
    if trimmed(raw).len() == 0 {
        Err(ErrorView::Internal("安装位置不能为空"@))
    } else if !look.absolute {
        Err(ErrorView::Internal("安装位置必须是绝对路径"@))
    } else if look.exists && !look.is_dir {
        Err(ErrorView::Internal("安装位置必须是文件夹"@))
    } else {
        Ok(!look.protected && look.exists)
    }
}

/// Whether the content of a picked directory must be listed, or why it is refused.
pub fn look_at_picked_dir(raw: &str, look: RootLook) -> (r: Result<bool, AppError>)
    ensures
        match r {
            Ok(list) => picked_look(raw@, look) == Ok::<bool, ErrorView>(list),
            Err(e) => picked_look(raw@, look) == Err::<bool, ErrorView>(e@),
        },
{
    let all = chars_of(raw);
    if trim(all.as_slice()).len() == 0 {
        return Err(internal("安装位置不能为空"));
    }
    if !look.absolute {
        return Err(internal("安装位置必须是绝对路径"));
    }
    if look.exists && !look.is_dir {
        return Err(internal("安装位置必须是文件夹"));
    }
    Ok(!look.protected && look.exists)
}

/// The place to check for a picked directory that was listed: `listed` tells whether
/// it was, `empty` and `portable` what was found.
pub fn install_root_from_picked_dir(listed: bool, empty: bool, portable: bool) -> (r: PickedPlace)
    ensures
        r == (if listed && !empty && !portable {
            PickedPlace::Child
        } else {
            PickedPlace::Itself
        }),
{
    if listed && !empty && !portable {
        PickedPlace::Child
    } else {
        PickedPlace::Itself
    }
}

/// The error of a directory that could not be listed.
pub fn listing_failed(reason: &str) -> (r: AppError)
    ensures
        r@ == ErrorView::Internal("读取安装位置失败: "@ + reason@),
{
    AppError::Internal(said("读取安装位置失败: ", reason))
}

/// The name of a probe directory.
pub open spec fn probe_name(id: Seq<char>, role: Seq<char>) -> Seq<char> {
    INSTALL_LOCATION_PROBE_PREFIX@ + id + role
}

/// The names of the two directories of a trial.
pub fn probe_names(id: &str) -> (r: (String, String))
    ensures
        r.0@ == probe_name(id@, "-source"@),
        r.1@ == probe_name(id@, "-destination"@),
        r.0@ != r.1@,
{
    let mut source = chars_of(INSTALL_LOCATION_PROBE_PREFIX);
    push_str(&mut source, id);
    let mut destination = copy_of(source.as_slice());
    push_str(&mut source, "-source");
    push_str(&mut destination, "-destination");
    proof {
        reveal_strlit("-source");
        reveal_strlit("-destination");
        assert(source@.len() != destination@.len());
    }
    (string_of(source.as_slice()), string_of(destination.as_slice()))
}

/// A lower-case hexadecimal digit.
pub open spec fn is_hex(c: char) -> bool {
    '0' <= c <= '9' || 'a' <= c <= 'f'
}

/// The text of a random UUID: thirty-two digits in five groups, of which one tells the
/// version and one the variant.
pub open spec fn is_random_uuid(t: Seq<char>) -> bool {
    &&& t.len() == 36
    &&& forall|i: int|
        0 <= i < 36 ==> if i == 8 || i == 13 || i == 18 || i == 23 {
            #[trigger] t[i] == '-'
        } else {
            is_hex(t[i])
        }
    &&& t[14] == '4'
    &&& t[19] == '8' || t[19] == '9' || t[19] == 'a' || t[19] == 'b'
}

/// Calls `uuid::Uuid::new_v4` and gives the hyphenated text of the result. It is the text
/// of some UUID of the fourth version; which one is left to chance. Where the system has
/// no random bytes to give, the call panics.
#[verifier::external_body]
fn random_id() -> (r: String)
    ensures
        is_random_uuid(r@),
{
    uuid::Uuid::new_v4().to_string()
}

/// A name that stays in the directory in which it is used.
pub open spec fn is_plain_name(name: Seq<char>) -> bool {
    &&& name.len() > 0
    &&& forall|i: int| 0 <= i < name.len() ==> #[trigger] name[i] != '/' && name[i] != '\\'
}

/// New names for the two directories of a trial. Both stay in the directory in which the
/// trial is made.
pub fn fresh_probe_names() -> (r: (String, String))
    ensures
        exists|id: Seq<char>|
            #[trigger] is_random_uuid(id) && r.0@ == probe_name(id, "-source"@) && r.1@
                == probe_name(id, "-destination"@),
        r.0@ != r.1@,
        is_plain_name(r.0@),
        is_plain_name(r.1@),
{
    let id = random_id();
    let names = probe_names(id.as_str());
    proof {
        reveal_strlit(".codex-manager-install-test-");
        reveal_strlit("-source");
        reveal_strlit("-destination");
        lemma_plain_name(id@, "-source"@);
        lemma_plain_name(id@, "-destination"@);
    }
    names
}

proof fn lemma_plain_name(id: Seq<char>, role: Seq<char>)
    requires
        is_random_uuid(id),
        is_plain_name(role),
    ensures
        is_plain_name(probe_name(id, role)),
{
    reveal_strlit(".codex-manager-install-test-");
    let front = INSTALL_LOCATION_PROBE_PREFIX@;
    let name = probe_name(id, role);
    assert forall|i: int| 0 <= i < name.len() implies #[trigger] name[i] != '/' && name[i]
        != '\\' by {
        if i < 28 {
            assert(name[i] == front[i]);
        } else if i < 64 {
            assert(name[i] == id[i - 28]);
        } else {
            assert(name[i] == role[i - 64]);
        }
    }
}

/// The index of the first candidate that exists.
pub fn first_existing(exists: &Vec<bool>) -> (r: Option<usize>)
    ensures
        match r {
            Some(i) => i < exists@.len() && exists@[i as int] && forall|j: int|
                0 <= j < i ==> !#[trigger] exists@[j],
            None => forall|j: int| 0 <= j < exists@.len() ==> !#[trigger] exists@[j],
        },
{
    let mut i: usize = 0;
    while i < exists.len()
        invariant
            i <= exists@.len(),
            forall|j: int| 0 <= j < i ==> !#[trigger] exists@[j],
        decreases exists@.len() - i,
    {
        if exists[i] {
            return Some(i);
        }
        i += 1;
    }
    None
}

} // verus!
