//! The single entry path: configuration checks, the no-release
//! short-circuit, and the one descriptive string each failure turns into.

use vstd::prelude::*;
use vstd::string::StringExecFns;
use crate::fetch::{Fetcher, ReleaseRecord};
use crate::render::Assembler;
use crate::text::{dec_str, push_dec};
use crate::version::sv_ok;

verus! {

/// A failure that aborts the whole operation.
pub enum NotesError {
    /// The repository owner is not configured.
    MissingOwner,
    /// The repository name is not configured.
    MissingRepo,
    /// The running application's version string is not a semantic version.
    BadCurrentVersion,
    /// The HTTP client could not be built; the transport's words follow.
    ClientBuild { detail: String },
    /// A page request failed in transport; the page and the transport's
    /// words follow.
    Network { page: u32, detail: String },
    /// A page request came back with a non-success status.
    HttpStatus { status: String },
    /// A page's body did not decode as a release listing.
    Decode { detail: String },
}

/// The one descriptive string a failure turns into.
pub open spec fn message_spec(e: NotesError) -> Seq<char> {
    match e {
        NotesError::MissingOwner => "GITHUB_OWNER environment variable not set"@,
        NotesError::MissingRepo => "GITHUB_REPO environment variable not set"@,
        NotesError::BadCurrentVersion => "Failed to parse current version"@,
        NotesError::ClientBuild { detail } => "Failed to build HTTP client: "@ + detail@,
        NotesError::Network { page, detail } => "Failed to fetch releases page "@ + dec_str(
            page as nat,
        ) + ": "@ + detail@,
        NotesError::HttpStatus { status } => "GitHub API returned error: "@ + status@,
        NotesError::Decode { detail } => "Failed to parse releases JSON: "@ + detail@,
    }
}

impl NotesError {
    /// The caller-facing text of this failure.
    pub fn message(&self) -> (r: String)
        ensures
            r@ == message_spec(*self),
    {
        match self {
            NotesError::MissingOwner => String::from_str(
                "GITHUB_OWNER environment variable not set",
            ),
            NotesError::MissingRepo => String::from_str(
                "GITHUB_REPO environment variable not set",
            ),
            NotesError::BadCurrentVersion => String::from_str("Failed to parse current version"),
            NotesError::ClientBuild { detail } => {
                let mut s = String::from_str("Failed to build HTTP client: ");
                s.append(detail.as_str());
                s
            },
            NotesError::Network { page, detail } => {
                let mut s = String::from_str("Failed to fetch releases page ");
                push_dec(&mut s, *page as u64);
                s.append(": ");
                s.append(detail.as_str());
                s
            },
            NotesError::HttpStatus { status } => {
                let mut s = String::from_str("GitHub API returned error: ");
                s.append(status.as_str());
                s
            },
            NotesError::Decode { detail } => {
                let mut s = String::from_str("Failed to parse releases JSON: ");
                s.append(detail.as_str());
                s
            },
        }
    }
}

/// Checks the configuration and starts the fetch: the owner must be
/// present, then the repository, then the current version must parse;
/// each failure comes exactly on the stated input.
pub fn start(owner: &Option<String>, repo: &Option<String>, current_version: &str) -> (r: Result<
    Fetcher,
    NotesError,
>)
    ensures
        owner is None ==> (r matches Err(e) && e is MissingOwner),
        owner is Some && repo is None ==> (r matches Err(e) && e is MissingRepo),
        owner is Some && repo is Some && !sv_ok(current_version@) ==> (r matches Err(e)
            && e is BadCurrentVersion),
        owner is Some && repo is Some && sv_ok(current_version@) ==> (r matches Ok(f) && {
            &&& f.current_spec() == current_version@
            &&& f.page_spec() == 1
            &&& f.releases() == Seq::<ReleaseRecord>::empty()
            &&& !f.done_spec()
        }),
{
    if owner.is_none() {
        return Err(NotesError::MissingOwner);
    }
    if repo.is_none() {
        return Err(NotesError::MissingRepo);
    }
    match Fetcher::new(current_version) {
        Some(f) => Ok(f),
        None => Err(NotesError::BadCurrentVersion),
    }
}

/// The fixed text returned when no release is newer than the running
/// version.
pub fn no_new_releases_text() -> (r: String)
    ensures
        r@ == "No new releases available"@,
{
    String::from_str("No new releases available")
}

/// What the operation does once the fetch has ended.
pub enum AssemblyStart {
    /// No qualifying release: the operation's whole result is this text.
    NoNewReleases(String),
    /// At least one qualifying release: the document is to be assembled.
    Begin(Assembler),
}

/// Decides between the no-release short-circuit and assembling: with zero
/// qualifying releases the operation's result is exactly the fixed text,
/// and no fallback lookup ever happens; otherwise an assembler over the
/// releases, in their given order, with an empty document.
pub fn begin_assembly(releases: Vec<ReleaseRecord>, owner: String, repo: String) -> (r:
    AssemblyStart)
    ensures
        releases@.len() == 0 ==> (r matches AssemblyStart::NoNewReleases(s) && s@
            == "No new releases available"@),
        releases@.len() > 0 ==> (r matches AssemblyStart::Begin(a) && {
            &&& a.releases@ == releases@
            &&& a.owner@ == owner@
            &&& a.repo@ == repo@
            &&& a.idx == 0
            &&& a.doc@ == Seq::<char>::empty()
            &&& a.wf()
        }),
{
    if releases.is_empty() {
        AssemblyStart::NoNewReleases(no_new_releases_text())
    } else {
        AssemblyStart::Begin(Assembler::new(releases, owner, repo))
    }
}

/// The name and version pair shown about the running application.
pub struct AppInfo {
    pub name: String,
    pub version: String,
}

/// Packs the build-time name and version for display.
pub fn app_info(name: String, version: String) -> (r: AppInfo)
    ensures
        r.name@ == name@,
        r.version@ == version@,
{
    AppInfo { name, version }
}

} // verus!
