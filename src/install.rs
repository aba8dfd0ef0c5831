use vstd::prelude::*;

use crate::dirs::{downloads_dir, models_dir, BaseDirs, BaseDirsView};
use crate::model::{download_path, local_path, Model, ModelView};
use crate::text::{strip_prefix_str, strip_suffix_str};

verus! {

/// Where the published archives are hosted. An archive under this prefix named
/// `<folder>.zip` unpacks into a top-level directory `<folder>`.
pub const KNOWN_URL_PREFIX: &'static str = "https://alphacephei.com/vosk/models/";

/// The extension of a model archive.
pub const ARCHIVE_SUFFIX: &'static str = ".zip";

/// Why an installation stopped.
#[derive(Clone, Copy, PartialEq, Eq, Structural, Debug)]
pub enum InstallError {
    /// A cache or data subdirectory could not be created.
    CreateDir,
    /// The archive could not be fetched.
    Network,
    /// A local file could not be created, written or opened.
    Io,
    /// The cached file is not a valid archive, or unpacking it failed.
    Archive,
    /// The unpacked top-level directory could not be renamed to the install path.
    Rename,
    /// The download URL has the known prefix but does not end in the archive extension.
    ArchiveName,
}

/// What the surrounding runner observed after carrying out the previous action.
#[derive(Clone, Copy, PartialEq, Eq, Structural, Debug)]
pub enum InstallEvent {
    /// The run begins; `installed` tells whether the install path already exists.
    Started { installed: bool },
    /// The downloads directory exists.
    CacheDirReady,
    /// The archive path was probed; `cached` tells whether a file is already there.
    ArchiveProbed { cached: bool },
    /// The archive was fetched and written to its cache path.
    Downloaded,
    /// The archive was unpacked into the models directory.
    Extracted,
    /// The unpacked directory was renamed to the install path.
    Renamed,
    /// The previous action failed.
    Failed(InstallError),
}

/// The next thing the runner has to do.
#[derive(Clone, PartialEq, Eq, Debug)]
pub enum InstallAction {
    /// Create the directory `path` (and its parents) if absent.
    CreateCacheDir { path: String },
    /// Check whether a file exists at `path`.
    ProbeArchive { path: String },
    /// Fetch `url` and write the whole body to `dest`, creating or truncating it.
    Download { url: String, dest: String },
    /// Create `dest` if absent and unpack the archive at `archive` into it.
    Extract { archive: String, dest: String },
    /// Rename the directory `from` to `to`.
    Rename { from: String, to: String },
    /// Stop with success; `fresh` tells whether this run installed the model.
    Finish { fresh: bool },
    /// Stop with the given error.
    Abort(InstallError),
}

/// The mathematical value of an `InstallAction`.
pub enum ActionView {
    CreateCacheDir { path: Seq<char> },
    ProbeArchive { path: Seq<char> },
    Download { url: Seq<char>, dest: Seq<char> },
    Extract { archive: Seq<char>, dest: Seq<char> },
    Rename { from: Seq<char>, to: Seq<char> },
    Finish { fresh: bool },
    Abort(InstallError),
}

impl View for InstallAction {
    type V = ActionView;

    open spec fn view(&self) -> ActionView {
        match self {
            InstallAction::CreateCacheDir { path } => ActionView::CreateCacheDir { path: path@ },
            InstallAction::ProbeArchive { path } => ActionView::ProbeArchive { path: path@ },
            InstallAction::Download { url, dest } => ActionView::Download { url: url@, dest: dest@ },
            InstallAction::Extract { archive, dest } => ActionView::Extract {
                archive: archive@,
                dest: dest@,
            },
            InstallAction::Rename { from, to } => ActionView::Rename { from: from@, to: to@ },
            InstallAction::Finish { fresh } => ActionView::Finish { fresh: *fresh },
            InstallAction::Abort(e) => ActionView::Abort(*e),
        }
    }
}

/// The top-level directory that the archive at `url` unpacks into: `None` where `url` is
/// not under the known prefix (nothing to rename), an error where it is but does not end
/// in the archive extension.
pub open spec fn archive_folder_of(url: Seq<char>) -> Result<Option<Seq<char>>, InstallError> {
    let pre = KNOWN_URL_PREFIX@;
    let suf = ARCHIVE_SUFFIX@;
    if pre.is_prefix_of(url) {
        let rest = url.subrange(pre.len() as int, url.len() as int);
        if suf.is_suffix_of(rest) {
            Ok(Some(rest.subrange(0, rest.len() - suf.len())))
        } else {
            Err(InstallError::ArchiveName)
        }
    } else {
        Ok(None)
    }
}

/// What to do after `e`, for model `m` under base directories `d`.
pub open spec fn plan(m: ModelView, d: BaseDirsView, e: InstallEvent) -> ActionView {
    match e {
        InstallEvent::Started { installed } => if installed {
            ActionView::Finish { fresh: false }
        } else {
            ActionView::CreateCacheDir { path: downloads_dir(d) }
        },
        InstallEvent::CacheDirReady => ActionView::ProbeArchive {
            path: download_path(d, m.lang),
        },
        InstallEvent::ArchiveProbed { cached } => if cached {
            ActionView::Extract { archive: download_path(d, m.lang), dest: models_dir(d) }
        } else {
            ActionView::Download { url: m.download_url, dest: download_path(d, m.lang) }
        },
        InstallEvent::Downloaded => ActionView::Extract {
            archive: download_path(d, m.lang),
            dest: models_dir(d),
        },
        InstallEvent::Extracted => match archive_folder_of(m.download_url) {
            Ok(Some(name)) => ActionView::Rename {
                from: models_dir(d) + "/"@ + name,
                to: local_path(d, m.lang),
            },
            Ok(None) => ActionView::Finish { fresh: true },
            Err(err) => ActionView::Abort(err),
        },
        InstallEvent::Renamed => ActionView::Finish { fresh: true },
        InstallEvent::Failed(err) => ActionView::Abort(err),
    }
}

/// Derives the top-level directory that the archive at `url` unpacks into.
pub fn archive_folder_name(url: &str) -> (r: Result<Option<String>, InstallError>)
    ensures
        match r {
            Ok(Some(name)) => archive_folder_of(url@) == Ok::<Option<Seq<char>>, InstallError>(
                Some(name@),
            ),
            Ok(None) => archive_folder_of(url@) == Ok::<Option<Seq<char>>, InstallError>(None),
            Err(e) => archive_folder_of(url@) == Err::<Option<Seq<char>>, InstallError>(e),
        },
{
    let ghost pre = KNOWN_URL_PREFIX@;
    let ghost suf = ARCHIVE_SUFFIX@;
    match strip_prefix_str(url, KNOWN_URL_PREFIX) {
        None => Ok(None),
        Some(rest) => {
            proof {
                assert(pre.is_prefix_of(url@)) by {
                    assert(url@.subrange(0, pre.len() as int) =~= pre);
                }
                assert(url@.subrange(pre.len() as int, url@.len() as int) =~= rest@);
            }
            match strip_suffix_str(rest, ARCHIVE_SUFFIX) {
                None => Err(InstallError::ArchiveName),
                Some(name) => {
                    proof {
                        assert(suf.is_suffix_of(rest@)) by {
                            assert(rest@.subrange(rest@.len() - suf.len(), rest@.len() as int)
                                =~= suf);
                        }
                        assert(rest@.subrange(0, rest@.len() - suf.len()) =~= name@);
                    }
                    Ok(Some(String::from_str(name)))
                },
            }
        },
    }
}

/// Decides the next step of installing `model` under `dirs`, given what the previous step
/// produced. A run starts with `Started` and ends at `Finish` or `Abort`.
pub fn next_action(model: &Model, dirs: &BaseDirs, event: InstallEvent) -> (r: InstallAction)
    requires
        dirs.wf(),
    ensures
        r@ == plan(model@, dirs@, event),
{
    match event {
        InstallEvent::Started { installed } => {
            if installed {
                InstallAction::Finish { fresh: false }
            } else {
                InstallAction::CreateCacheDir { path: dirs.downloads_dir() }
            }
        },
        InstallEvent::CacheDirReady => InstallAction::ProbeArchive {
            path: model.get_download_path(dirs),
        },
        InstallEvent::ArchiveProbed { cached } => {
            if cached {
                InstallAction::Extract {
                    archive: model.get_download_path(dirs),
                    dest: dirs.models_dir(),
                }
            } else {
                InstallAction::Download {
                    url: model.download_url.clone(),
                    dest: model.get_download_path(dirs),
                }
            }
        },
        InstallEvent::Downloaded => InstallAction::Extract {
            archive: model.get_download_path(dirs),
            dest: dirs.models_dir(),
        },
        InstallEvent::Extracted => match archive_folder_name(model.download_url.as_str()) {
            Ok(Some(name)) => InstallAction::Rename {
                from: dirs.models_dir().concat("/").concat(name.as_str()),
                to: model.get_local_path(dirs),
            },
            Ok(None) => InstallAction::Finish { fresh: true },
            Err(e) => InstallAction::Abort(e),
        },
        InstallEvent::Renamed => InstallAction::Finish { fresh: true },
        InstallEvent::Failed(e) => InstallAction::Abort(e),
    }
}

/// A run that finds the model already installed stops at once with success, fetching and
/// unpacking nothing; so a second install right after a successful one is a no-op.
pub proof fn lemma_installed_is_noop(m: ModelView, d: BaseDirsView)
    ensures
        plan(m, d, InstallEvent::Started { installed: true }) == (ActionView::Finish {
            fresh: false,
        }),
{
}

/// The archive is fetched only after a probe found no cached file, and unpacked only after
/// a probe found one or right after a fetch; a cached file is reused as it is.
pub proof fn lemma_fetch_and_extract_triggers(m: ModelView, d: BaseDirsView, e: InstallEvent)
    ensures
        plan(m, d, e) is Download ==> e == (InstallEvent::ArchiveProbed { cached: false }),
        plan(m, d, e) is Extract ==> e == (InstallEvent::ArchiveProbed { cached: true }) || e
            == InstallEvent::Downloaded,
        e == (InstallEvent::ArchiveProbed { cached: true }) ==> plan(m, d, e) is Extract,
{
}

/// A failed step always ends the run with that step's error, and a run only reports a fresh
/// install after the archive was unpacked (and, where needed, renamed).
pub proof fn lemma_failure_aborts(m: ModelView, d: BaseDirsView, e: InstallEvent)
    ensures
        e is Failed ==> plan(m, d, e) == ActionView::Abort(e->Failed_0),
        plan(m, d, e) == (ActionView::Finish { fresh: true }) ==> e == InstallEvent::Extracted
            || e == InstallEvent::Renamed,
{
}

/// An archive published under the known prefix as `<name>.zip` unpacks into `<name>`, which
/// is then renamed to the model's install path `<data-home>/models/<lang>`.
pub proof fn lemma_known_prefix_renamed_to_lang(m: ModelView, d: BaseDirsView, name: Seq<char>)
    requires
        m.download_url == KNOWN_URL_PREFIX@ + name + ARCHIVE_SUFFIX@,
    ensures
        archive_folder_of(m.download_url) == Ok::<Option<Seq<char>>, InstallError>(Some(name)),
        plan(m, d, InstallEvent::Extracted) == (ActionView::Rename {
            from: models_dir(d) + "/"@ + name,
            to: local_path(d, m.lang),
        }),
{
    let pre = KNOWN_URL_PREFIX@;
    let suf = ARCHIVE_SUFFIX@;
    let url = m.download_url;
    assert(url.subrange(0, pre.len() as int) =~= pre);
    let rest = url.subrange(pre.len() as int, url.len() as int);
    assert(rest =~= name + suf);
    assert(rest.subrange(rest.len() - suf.len(), rest.len() as int) =~= suf);
    assert(rest.subrange(0, rest.len() - suf.len()) =~= name);
}

/// An archive from anywhere but the known prefix is left under its own top-level name:
/// the run finishes right after unpacking, without a rename.
pub proof fn lemma_unknown_prefix_not_renamed(m: ModelView, d: BaseDirsView)
    requires
        !KNOWN_URL_PREFIX@.is_prefix_of(m.download_url),
    ensures
        archive_folder_of(m.download_url) == Ok::<Option<Seq<char>>, InstallError>(None),
        plan(m, d, InstallEvent::Extracted) == (ActionView::Finish { fresh: true }),
{
}

/// Whether `e` can be what carrying out `a` produced. `Finish` and `Abort` end a run, so
/// nothing follows them.
pub open spec fn outcome_of(a: ActionView, e: InstallEvent) -> bool {
    match a {
        ActionView::CreateCacheDir { .. } => e == InstallEvent::CacheDirReady || e is Failed,
        ActionView::ProbeArchive { .. } => e is ArchiveProbed,
        ActionView::Download { .. } => e == InstallEvent::Downloaded || e is Failed,
        ActionView::Extract { .. } => e == InstallEvent::Extracted || e is Failed,
        ActionView::Rename { .. } => e == InstallEvent::Renamed || e is Failed,
        ActionView::Finish { .. } => false,
        ActionView::Abort(_) => false,
    }
}

/// Whether `events` is the sequence of observations of one install run: it starts with
/// `Started`, and each later event is an outcome of the action planned after the one before.
pub open spec fn is_run(m: ModelView, d: BaseDirsView, events: Seq<InstallEvent>) -> bool {
    &&& events.len() > 0
    &&& events[0] is Started
    &&& forall|k: int|
        1 <= k < events.len() ==> outcome_of(plan(m, d, events[k - 1]), #[trigger] events[k])
}

/// How far along a run an event lies.
pub open spec fn stage(e: InstallEvent) -> int {
    match e {
        InstallEvent::Started { .. } => 0,
        InstallEvent::CacheDirReady => 1,
        InstallEvent::ArchiveProbed { .. } => 2,
        InstallEvent::Downloaded => 3,
        InstallEvent::Extracted => 4,
        InstallEvent::Renamed => 5,
        InstallEvent::Failed(_) => 6,
    }
}

/// Along a run, every event lies strictly further than each one before it.
proof fn lemma_run_stages_increase(m: ModelView, d: BaseDirsView, events: Seq<InstallEvent>, i: int, j: int)
    requires
        is_run(m, d, events),
        0 <= i < j < events.len(),
    ensures
        stage(events[i]) < stage(events[j]),
    decreases j - i,
{
    assert(outcome_of(plan(m, d, events[j - 1]), events[j]));
    if i < j - 1 {
        lemma_run_stages_increase(m, d, events, i, j - 1);
    }
}

/// Within one install run the archive is fetched at most once and unpacked at most once; a
/// run that starts on an installed model does nothing else; and a failure ends the run.
pub proof fn lemma_run_fetches_and_unpacks_at_most_once(
    m: ModelView,
    d: BaseDirsView,
    events: Seq<InstallEvent>,
)
    requires
        is_run(m, d, events),
    ensures
        forall|i: int, j: int|
            0 <= i < events.len() && 0 <= j < events.len() && plan(m, d, events[i]) is Download
                && plan(m, d, events[j]) is Download ==> i == j,
        forall|i: int, j: int|
            0 <= i < events.len() && 0 <= j < events.len() && plan(m, d, events[i]) is Extract
                && plan(m, d, events[j]) is Extract ==> i == j,
        events[0] == (InstallEvent::Started { installed: true }) ==> events.len() == 1,
        forall|i: int| 0 <= i < events.len() && #[trigger] events[i] is Failed ==> i == events.len() - 1,
{
    assert forall|i: int, j: int|
        0 <= i < events.len() && 0 <= j < events.len() && plan(m, d, events[i]) is Download
            && plan(m, d, events[j]) is Download implies i == j by {
        if i < j {
            lemma_run_stages_increase(m, d, events, i, j);
        } else if j < i {
            lemma_run_stages_increase(m, d, events, j, i);
        }
    }
    assert forall|i: int, j: int|
        0 <= i < events.len() && 0 <= j < events.len() && plan(m, d, events[i]) is Extract
            && plan(m, d, events[j]) is Extract implies i == j by {
        if i != j {
            let lo = if i < j { i } else { j };
            let hi = if i < j { j } else { i };
            lemma_run_stages_increase(m, d, events, lo, hi);
            assert(events[hi] == InstallEvent::Downloaded);
            assert(outcome_of(plan(m, d, events[hi - 1]), events[hi]));
            if lo < hi - 1 {
                lemma_run_stages_increase(m, d, events, lo, hi - 1);
            }
        }
    }
    if events[0] == (InstallEvent::Started { installed: true }) && events.len() > 1 {
        assert(outcome_of(plan(m, d, events[0]), events[1]));
    }
    assert forall|i: int| 0 <= i < events.len() && #[trigger] events[i] is Failed implies i
        == events.len() - 1 by {
        if i < events.len() - 1 {
            assert(outcome_of(plan(m, d, events[i]), events[i + 1]));
        }
    }
}

} // verus!
