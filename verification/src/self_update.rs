//! The launcher's own updates: deciding whether a release is newer than the
//! running build, following the download, and unpacking the archive.

use crate::archive::{
    archive_entries, archive_len, enclosed, entry_data, entry_name, is_enclosed, open_archive,
    zip_opened, Archive, ArchiveEntry,
};
use crate::text::{ends_with, join_path, joined, starts_with};
use crate::version::{semver_greater, semver_parse, Version, VersionParts};
use vstd::prelude::*;
use vstd::string::*;

verus! {

/// How the name of the launcher's package begins in a release.
pub const LAUNCHER_ASSET_PREFIX: &'static str = "libhyperbeam_launcher";

/// How the name of the launcher's package ends in a release.
pub const LAUNCHER_ASSET_SUFFIX: &'static str = ".nro";

/// One downloadable file of a release.
#[derive(Debug, Clone, PartialEq, Eq)]
pub struct ReleaseAsset {
    pub name: String,
    pub size: u64,
    pub browser_download_url: String,
}

/// A release as the release endpoint describes it, its tag still as text.
#[derive(Debug, Clone, PartialEq, Eq)]
pub struct Release {
    pub name: String,
    pub tag_name: String,
    pub body: String,
    pub assets: Vec<ReleaseAsset>,
}

/// An update that can be installed.
#[derive(Debug, Clone, PartialEq, Eq)]
pub struct Update {
    pub version: Version,
    /// Where the package is downloaded from.
    pub download: String,
}

/// An `Update` as a mathematical value.
pub struct UpdateView {
    pub version: VersionParts,
    pub download: Seq<char>,
}

impl View for Update {
    type V = UpdateView;

    open spec fn view(&self) -> UpdateView {
        UpdateView { version: self.version@, download: self.download@ }
    }
}

/// What a check for updates found.
#[derive(Debug, Clone, PartialEq, Eq)]
pub enum UpdateCheckResult {
    NoUpdate,
    UpdateAvailable(Update),
}

/// An `UpdateCheckResult` as a mathematical value.
pub enum UpdateCheckResultView {
    NoUpdate,
    UpdateAvailable(UpdateView),
}

impl View for UpdateCheckResult {
    type V = UpdateCheckResultView;

    open spec fn view(&self) -> UpdateCheckResultView {
        match self {
            UpdateCheckResult::NoUpdate => UpdateCheckResultView::NoUpdate,
            UpdateCheckResult::UpdateAvailable(update) => UpdateCheckResultView::UpdateAvailable(
                update@,
            ),
        }
    }
}

/// Why a check for updates gave no answer. None of these means that there is
/// no update.
#[derive(Debug, Clone, PartialEq, Eq)]
pub enum UpdateCheckError {
    /// The release could not be fetched or read; the message says why.
    Fetch(String),
    /// The release's tag is no semantic version; the message is the parser's.
    InvalidTag(String),
    /// The release is newer and holds no package of the launcher.
    NoReleaseAsset,
}

/// An `UpdateCheckError` as a mathematical value.
pub enum UpdateCheckErrorView {
    Fetch(Seq<char>),
    InvalidTag(Seq<char>),
    NoReleaseAsset,
}

impl View for UpdateCheckError {
    type V = UpdateCheckErrorView;

    open spec fn view(&self) -> UpdateCheckErrorView {
        match self {
            UpdateCheckError::Fetch(m) => UpdateCheckErrorView::Fetch(m@),
            UpdateCheckError::InvalidTag(m) => UpdateCheckErrorView::InvalidTag(m@),
            UpdateCheckError::NoReleaseAsset => UpdateCheckErrorView::NoReleaseAsset,
        }
    }
}

impl UpdateCheckErrorView {
    /// The error in words.
    pub open spec fn message_text(self) -> Seq<char> {
        match self {
            UpdateCheckErrorView::Fetch(m) => m,
            UpdateCheckErrorView::InvalidTag(m) => m,
            UpdateCheckErrorView::NoReleaseAsset => "No release asset found"@,
        }
    }
}

impl UpdateCheckError {
    /// The error in words.
    pub fn message(&self) -> (r: String)
        ensures
            r@ == self@.message_text(),
    {
        match self {
            UpdateCheckError::Fetch(m) => m.clone(),
            UpdateCheckError::InvalidTag(m) => m.clone(),
            UpdateCheckError::NoReleaseAsset => String::from_str("No release asset found"),
        }
    }
}

/// The outcome of a check for updates.
pub type UpdateCheck = Result<UpdateCheckResult, UpdateCheckError>;

/// The view of the outcome of a check.
pub open spec fn check_view(r: UpdateCheck) -> Result<UpdateCheckResultView, UpdateCheckErrorView> {
    match r {
        Ok(found) => Ok(found@),
        Err(error) => Err(error@),
    }
}

/// Whether an asset of this name is the launcher's package.
pub open spec fn is_launcher_asset_name(name: Seq<char>) -> bool {
    LAUNCHER_ASSET_PREFIX@.is_prefix_of(name) && LAUNCHER_ASSET_SUFFIX@.is_suffix_of(name)
}

/// The place of the first of `assets` that is the launcher's package, or
/// `None` where none is.
pub open spec fn first_launcher_asset(assets: Seq<ReleaseAsset>) -> Option<int>
    decreases assets.len(),
{
    if assets.len() == 0 {
        None
    } else {
        match first_launcher_asset(assets.drop_last()) {
            Some(i) => Some(i),
            None => if is_launcher_asset_name(assets.last().name@) {
                Some(assets.len() - 1)
            } else {
                None
            },
        }
    }
}

/// The first launcher asset is an asset that is the launcher's package, and
/// none before it is; where there is none, no asset is.
pub proof fn lemma_first_launcher_asset(assets: Seq<ReleaseAsset>)
    ensures
        match first_launcher_asset(assets) {
            Some(i) => {
                &&& 0 <= i < assets.len()
                &&& is_launcher_asset_name(assets[i].name@)
                &&& forall|j: int|
                    0 <= j < i ==> !is_launcher_asset_name(#[trigger] assets[j].name@)
            },
            None => forall|j: int|
                0 <= j < assets.len() ==> !is_launcher_asset_name(#[trigger] assets[j].name@),
        },
    decreases assets.len(),
{
    if assets.len() > 0 {
        let shorter = assets.drop_last();
        lemma_first_launcher_asset(shorter);
        assert forall|j: int| 0 <= j < shorter.len() implies shorter[j] == assets[j] by {}
        match first_launcher_asset(shorter) {
            Some(i) => {
                assert forall|j: int| 0 <= j < i implies !is_launcher_asset_name(
                    #[trigger] assets[j].name@,
                ) by {
                    assert(shorter[j] == assets[j]);
                }
            },
            None => {
                assert forall|j: int| 0 <= j < shorter.len() implies !is_launcher_asset_name(
                    #[trigger] assets[j].name@,
                ) by {
                    assert(shorter[j] == assets[j]);
                }
            },
        }
    }
}

/// The first launcher asset among the first `n` assets, if there is one, is
/// the first of them all.
pub proof fn lemma_first_launcher_asset_prefix(assets: Seq<ReleaseAsset>, n: int)
    requires
        0 <= n <= assets.len(),
        first_launcher_asset(assets.subrange(0, n)) is Some,
    ensures
        first_launcher_asset(assets) == first_launcher_asset(assets.subrange(0, n)),
    decreases assets.len(),
{
    if n == assets.len() {
        assert(assets.subrange(0, n) =~= assets);
    } else {
        assert(assets.drop_last().subrange(0, n) =~= assets.subrange(0, n));
        lemma_first_launcher_asset_prefix(assets.drop_last(), n);
    }
}

/// What a check decides once it is known whether the release is newer: no
/// update where it is not; the update with the first launcher asset's address
/// where it is and there is such an asset; an error where it is and there is
/// none.
pub open spec fn decided(newer: bool, version: VersionParts, assets: Seq<ReleaseAsset>) -> Result<
    UpdateCheckResultView,
    UpdateCheckErrorView,
> {
    if !newer {
        Ok(UpdateCheckResultView::NoUpdate)
    } else {
        match first_launcher_asset(assets) {
            Some(i) => Ok(
                UpdateCheckResultView::UpdateAvailable(
                    UpdateView { version, download: assets[i].browser_download_url@ },
                ),
            ),
            None => Err(UpdateCheckErrorView::NoReleaseAsset),
        }
    }
}

/// What a check makes of a release with the tag `tag` and the assets
/// `assets`, for a running build of version `running`.
pub open spec fn release_outcome(
    tag: Seq<char>,
    assets: Seq<ReleaseAsset>,
    running: VersionParts,
) -> Result<UpdateCheckResultView, UpdateCheckErrorView> {
    match semver_parse(tag) {
        Err(message) => Err(UpdateCheckErrorView::InvalidTag(message)),
        Ok(version) => decided(semver_greater(version, running), version, assets),
    }
}

/// Whether an asset of this name is the launcher's package.
pub fn is_launcher_asset(name: &str) -> (r: bool)
    ensures
        r == is_launcher_asset_name(name@),
{
    starts_with(name, LAUNCHER_ASSET_PREFIX) && ends_with(name, LAUNCHER_ASSET_SUFFIX)
}

/// The place of the first asset that is the launcher's package.
pub fn find_launcher_asset(assets: &Vec<ReleaseAsset>) -> (r: Option<usize>)
    ensures
        match r {
            Some(i) => i < assets.len() && first_launcher_asset(assets@) == Some(i as int),
            None => first_launcher_asset(assets@) is None,
        },
{
    let mut i: usize = 0;
    assert(assets@.subrange(0, 0) =~= Seq::<ReleaseAsset>::empty());
    while i < assets.len()
        invariant
            i <= assets.len(),
            first_launcher_asset(assets@.subrange(0, i as int)) is None,
        decreases assets.len() - i,
    {
        proof {
            let upto = assets@.subrange(0, i + 1);
            assert(upto.drop_last() =~= assets@.subrange(0, i as int));
            assert(upto.last() == assets@[i as int]);
        }
        if is_launcher_asset(assets[i].name.as_str()) {
            proof {
                lemma_first_launcher_asset_prefix(assets@, i + 1);
            }
            return Some(i);
        }
        i += 1;
    }
    assert(assets@.subrange(0, assets@.len() as int) =~= assets@);
    None
}

/// Decides a check once it is known whether the release is newer than the
/// running build.
///
/// A newer release without a package of the launcher is an error: it must not
/// pass for "no update".
pub fn decide_update(newer: bool, version: Version, assets: &Vec<ReleaseAsset>) -> (r: UpdateCheck)
    ensures
        check_view(r) == decided(newer, version@, assets@),
{
    if !newer {
        return Ok(UpdateCheckResult::NoUpdate);
    }
    match find_launcher_asset(assets) {
        Some(i) => Ok(
            UpdateCheckResult::UpdateAvailable(
                Update { version, download: assets[i].browser_download_url.clone() },
            ),
        ),
        None => Err(UpdateCheckError::NoReleaseAsset),
    }
}

/// Checks a release against the running build: an update where the release's
/// tag is a strictly newer version and the release holds the launcher's
/// package.
pub fn check_release(release: &Release, running: &Version) -> (r: UpdateCheck)
    ensures
        check_view(r) == release_outcome(release.tag_name@, release.assets@, running@),
{
    match Version::parse(release.tag_name.as_str()) {
        Err(message) => Err(UpdateCheckError::InvalidTag(message)),
        Ok(version) => {
            let newer = version.newer_than(running);
            decide_update(newer, version, &release.assets)
        },
    }
}

/// The outcome of a check for updates, given what fetching the latest
/// release gave: the release, or the reason why it could not be had. A
/// release that could not be fetched is an error, never "no update".
pub fn start_check_self_update(fetched: &Result<Release, String>, running: &Version) -> (r:
    UpdateCheck)
    ensures
        check_view(r) == match *fetched {
            Ok(release) => release_outcome(release.tag_name@, release.assets@, running@),
            Err(message) => Err(UpdateCheckErrorView::Fetch(message@)),
        },
{
    match fetched {
        Ok(release) => check_release(release, running),
        Err(message) => Err(UpdateCheckError::Fetch(message.clone())),
    }
}

/// The folder that an update is unpacked into.
pub const UPDATE_BASE_PATH: &'static str = "sd:/atmosphere/contents/01003D200BAA2000/romfs";

/// After how many bytes of a download its progress is reported.
pub const PROGRESS_INTERVAL: u64 = 1024;

/// Why an update failed.
#[derive(Debug, Clone, PartialEq, Eq)]
pub enum UpdateError {
    /// The package could not be downloaded; the message says why.
    Download(String),
    /// The package is no archive that can be read; the message says why.
    Archive(String),
    /// An entry could not be written; the message says why.
    Install(String),
}

/// An `UpdateError` as a mathematical value.
pub enum UpdateErrorView {
    Download(Seq<char>),
    Archive(Seq<char>),
    Install(Seq<char>),
}

impl View for UpdateError {
    type V = UpdateErrorView;

    open spec fn view(&self) -> UpdateErrorView {
        match self {
            UpdateError::Download(m) => UpdateErrorView::Download(m@),
            UpdateError::Archive(m) => UpdateErrorView::Archive(m@),
            UpdateError::Install(m) => UpdateErrorView::Install(m@),
        }
    }
}

impl UpdateError {
    /// The error in words: the message that came with it.
    pub fn message(&self) -> (r: String)
        ensures
            match *self {
                UpdateError::Download(m) => r@ == m@,
                UpdateError::Archive(m) => r@ == m@,
                UpdateError::Install(m) => r@ == m@,
            },
    {
        match self {
            UpdateError::Download(m) => m.clone(),
            UpdateError::Archive(m) => m.clone(),
            UpdateError::Install(m) => m.clone(),
        }
    }
}

/// How far a download has come: `received` of `total` bytes. The fraction is
/// `received / total`, and zero where the total is zero, that is unknown.
#[derive(Copy, Clone, Debug, PartialEq, Eq, Structural)]
pub struct ProgressPercentage {
    pub received: u64,
    pub total: u64,
}

/// The progress of a download of `expected` bytes of which `received` have
/// come. What comes beyond the expected size does not count, so the fraction
/// never exceeds one.
pub open spec fn progress_of(received: nat, expected: u64) -> ProgressPercentage {
    ProgressPercentage {
        received: if received <= expected {
            received as u64
        } else {
            expected
        },
        total: expected,
    }
}

impl ProgressPercentage {
    /// Whether the fraction lies between zero and one.
    pub open spec fn in_range(self) -> bool {
        self.received <= self.total
    }

    /// Whether the fraction of `self` is at most that of `later`.
    pub open spec fn at_most(self, later: ProgressPercentage) -> bool {
        self.received * later.total <= later.received * self.total
    }

    /// The fraction in whole percent, rounded down.
    pub open spec fn spec_percent(self) -> int {
        if self.total == 0 {
            0
        } else if self.received >= self.total {
            100
        } else {
            (self.received * 100) / (self.total as int)
        }
    }

    /// The fraction in whole percent, rounded down; never more than 100.
    pub fn percent(&self) -> (r: u8)
        ensures
            r == self.spec_percent(),
            r <= 100,
    {
        if self.total == 0 {
            0
        } else if self.received >= self.total {
            100
        } else {
            let scaled: u128 = (self.received as u128) * 100;
            let r: u128 = scaled / (self.total as u128);
            assert(r < 100) by (nonlinear_arith)
                requires
                    r == scaled / (self.total as u128),
                    scaled == self.received * 100,
                    self.received < self.total,
                    self.total > 0,
            ;
            r as u8
        }
    }
}

/// What an update reports while it runs.
#[derive(Debug, Clone, PartialEq, Eq)]
pub enum UpdateProgress {
    Downloading(ProgressPercentage),
    Installing,
    Finished,
    Failed(UpdateError),
}

/// An `UpdateProgress` as a mathematical value.
pub enum UpdateProgressView {
    Downloading(ProgressPercentage),
    Installing,
    Finished,
    Failed(UpdateErrorView),
}

impl View for UpdateProgress {
    type V = UpdateProgressView;

    open spec fn view(&self) -> UpdateProgressView {
        match self {
            UpdateProgress::Downloading(p) => UpdateProgressView::Downloading(*p),
            UpdateProgress::Installing => UpdateProgressView::Installing,
            UpdateProgress::Finished => UpdateProgressView::Finished,
            UpdateProgress::Failed(e) => UpdateProgressView::Failed(e@),
        }
    }
}

/// Where an update stands.
#[derive(Copy, Clone, Debug, PartialEq, Eq, Structural)]
pub enum UpdaterPhase {
    Downloading,
    Installing,
    Finished,
    Failed,
}

impl UpdaterPhase {
    /// Whether an update that stands at `self` may stand at `next` after a
    /// step: it stays where it is, or goes from the download to the
    /// installation, or from either to its end. An update that has finished or
    /// failed stays so.
    pub open spec fn may_follow(self, next: UpdaterPhase) -> bool {
        ||| self == next
        ||| self is Downloading && (next is Installing || next is Failed)
        ||| self is Installing && (next is Finished || next is Failed)
    }
}

/// Where an update stands after it has reported `event` at `phase`; `None`
/// where no update reports that there. The download reports its progress,
/// then the installation or a failure; the installation reports its end or
/// a failure; an update that has finished or failed reports nothing more.
pub open spec fn reported(phase: UpdaterPhase, event: UpdateProgressView) -> Option<UpdaterPhase> {
    match (phase, event) {
        (UpdaterPhase::Downloading, UpdateProgressView::Downloading(_)) => Some(
            UpdaterPhase::Downloading,
        ),
        (UpdaterPhase::Downloading, UpdateProgressView::Installing) => Some(
            UpdaterPhase::Installing,
        ),
        (UpdaterPhase::Downloading, UpdateProgressView::Failed(_)) => Some(UpdaterPhase::Failed),
        (UpdaterPhase::Installing, UpdateProgressView::Finished) => Some(UpdaterPhase::Finished),
        (UpdaterPhase::Installing, UpdateProgressView::Failed(_)) => Some(UpdaterPhase::Failed),
        _ => None,
    }
}

/// Whether a step that reported `event`, or nothing, may have taken an
/// update from `before` to `after`: a step that reports nothing leaves the
/// update where it stands.
pub open spec fn stepped(
    before: UpdaterPhase,
    event: Option<UpdateProgressView>,
    after: UpdaterPhase,
) -> bool {
    match event {
        None => after == before,
        Some(event) => reported(before, event) == Some(after),
    }
}

/// The view of what a step reports.
pub open spec fn report_view(report: Option<UpdateProgress>) -> Option<UpdateProgressView> {
    match report {
        Some(event) => Some(event@),
        None => None,
    }
}

/// What is reported with an action of the installation: its end, and
/// nothing with any other action.
pub open spec fn action_report(action: Option<InstallAction>) -> Option<UpdateProgressView> {
    match action {
        Some(InstallAction::Finished) => Some(UpdateProgressView::Finished),
        Some(InstallAction::Failed(error)) => Some(UpdateProgressView::Failed(error@)),
        _ => None,
    }
}

/// What the host is to do next while an update is installed.
#[derive(Debug, Clone, PartialEq, Eq)]
pub enum InstallAction {
    /// Nothing: the entry's name leads out of the install folder, and the
    /// entry is passed over.
    Skip,
    /// Create this folder, with the folders above it.
    CreateDir(String),
    /// Write these bytes to this file, in place of what is there, after
    /// creating the folders above it that are missing.
    WriteFile(String, Vec<u8>),
    /// Nothing more: every entry has been dealt with, and the update has
    /// finished.
    Finished,
    /// Nothing more: the update has failed.
    Failed(UpdateError),
}

/// What an `InstallAction` says, without the message of a failure.
pub enum InstallPlan {
    Skip,
    CreateDir(Seq<char>),
    WriteFile(Seq<char>, Seq<u8>),
    Finished,
    Failed,
}

impl InstallAction {
    /// What the action says.
    pub open spec fn plan(self) -> InstallPlan {
        match self {
            InstallAction::Skip => InstallPlan::Skip,
            InstallAction::CreateDir(path) => InstallPlan::CreateDir(path@),
            InstallAction::WriteFile(path, data) => InstallPlan::WriteFile(path@, data@),
            InstallAction::Finished => InstallPlan::Finished,
            InstallAction::Failed(_) => InstallPlan::Failed,
        }
    }

    /// What is to be reported to the user with this action: the end of the
    /// update, where the action is its end, and nothing otherwise.
    pub fn report(&self) -> (r: Option<UpdateProgress>)
        ensures
            report_view(r) == action_report(Some(*self)),
            *self is Finished ==> r == Some(UpdateProgress::Finished),
    {
        match self {
            InstallAction::Finished => Some(UpdateProgress::Finished),
            InstallAction::Failed(error) => {
                let copy = match error {
                    UpdateError::Download(m) => UpdateError::Download(m.clone()),
                    UpdateError::Archive(m) => UpdateError::Archive(m.clone()),
                    UpdateError::Install(m) => UpdateError::Install(m.clone()),
                };
                Some(UpdateProgress::Failed(copy))
            },
            _ => None,
        }
    }
}

/// What is done with one entry of the package when it is unpacked into
/// `root`. An entry that cannot be opened fails the update. An entry whose
/// name is not enclosed is passed over. A name that ends in a slash is a
/// folder to create. Any other entry is a file to write with the entry's
/// content, and fails the update where the content cannot be read. Folder and
/// file lie at `root`, a slash, and the entry's name.
pub open spec fn planned(root: Seq<char>, entry: Option<ArchiveEntry>) -> InstallPlan {
    match entry {
        None => InstallPlan::Failed,
        Some((name, content)) => if !enclosed(name) {
            InstallPlan::Skip
        } else if seq!['/'].is_suffix_of(name) {
            InstallPlan::CreateDir(joined(root, name))
        } else {
            match content {
                Some(data) => InstallPlan::WriteFile(joined(root, name), data),
                None => InstallPlan::Failed,
            }
        },
    }
}

/// An update under way: first the download, byte by byte, then the
/// installation, entry by entry. The host does the reading and the writing
/// and reports here; what is to be reported to the user and what is to be
/// done next comes back.
#[derive(Debug)]
pub struct UpdateSession {
    pub phase: UpdaterPhase,
    /// The size that the download is expected to have; zero where it is not
    /// known.
    pub expected_size: u64,
    /// What has been downloaded so far.
    pub bytes: Vec<u8>,
    /// How many bytes have come since progress was last reported.
    pub since_report: u64,
    /// The package, once it has been opened.
    pub archive: Option<Archive>,
    /// The entry that is unpacked next.
    pub next_entry: usize,
    /// The folder that the package is unpacked into.
    pub root: String,
}

impl UpdateSession {
    /// The entries of the package; none before it has been opened.
    pub open spec fn entries(&self) -> Seq<Option<ArchiveEntry>> {
        match self.archive {
            Some(archive) => archive_entries(archive),
            None => Seq::<Option<ArchiveEntry>>::empty(),
        }
    }

    /// Takes one more byte of the download, and says whether progress is to
    /// be reported: it is after every 1024th byte. Outside the download
    /// nothing happens.
    pub fn receive(&mut self, byte: u8) -> (r: Option<UpdateProgress>)
        ensures
            old(self).phase.may_follow(final(self).phase),
            stepped(old(self).phase, report_view(r), final(self).phase),
            final(self).phase == old(self).phase,
            final(self).expected_size == old(self).expected_size,
            final(self).archive == old(self).archive,
            final(self).next_entry == old(self).next_entry,
            final(self).root == old(self).root,
            !(old(self).phase is Downloading) ==> r is None && final(self).bytes == old(self).bytes
                && final(self).since_report == old(self).since_report,
            old(self).phase is Downloading ==> {
                &&& final(self).bytes@ == old(self).bytes@.push(byte)
                &&& if old(self).since_report >= PROGRESS_INTERVAL - 1 {
                    &&& final(self).since_report == 0
                    &&& r == Some(
                        UpdateProgress::Downloading(
                            progress_of(final(self).bytes@.len(), old(self).expected_size),
                        ),
                    )
                } else {
                    &&& final(self).since_report == old(self).since_report + 1
                    &&& r is None
                }
            },
    {
        if self.phase != UpdaterPhase::Downloading {
            return None;
        }
        self.bytes.push(byte);
        if self.since_report >= PROGRESS_INTERVAL - 1 {
            self.since_report = 0;
            let received: usize = self.bytes.len();
            let counted: u64 = if received as u64 <= self.expected_size {
                received as u64
            } else {
                self.expected_size
            };
            Some(
                UpdateProgress::Downloading(
                    ProgressPercentage { received: counted, total: self.expected_size },
                ),
            )
        } else {
            self.since_report += 1;
            None
        }
    }

    /// The download has failed: so has the update. Outside the download
    /// nothing happens.
    pub fn download_failed(&mut self, message: String) -> (r: Option<UpdateProgress>)
        ensures
            old(self).phase.may_follow(final(self).phase),
            stepped(old(self).phase, report_view(r), final(self).phase),
            final(self).expected_size == old(self).expected_size,
            final(self).bytes == old(self).bytes,
            final(self).since_report == old(self).since_report,
            final(self).archive == old(self).archive,
            final(self).next_entry == old(self).next_entry,
            final(self).root == old(self).root,
            old(self).phase is Downloading ==> final(self).phase is Failed && r == Some(
                UpdateProgress::Failed(UpdateError::Download(message)),
            ),
            !(old(self).phase is Downloading) ==> final(self).phase == old(self).phase && r is None,
    {
        if self.phase != UpdaterPhase::Downloading {
            return None;
        }
        self.phase = UpdaterPhase::Failed;
        Some(UpdateProgress::Failed(UpdateError::Download(message)))
    }

    /// The download is complete: the package is opened, and the installation
    /// begins with its first entry, or the update fails because the bytes are
    /// no archive. Either way the bytes are handed to the archive reader, and
    /// none are held here afterwards. Outside the download nothing happens.
    pub fn download_complete(&mut self) -> (r: Option<UpdateProgress>)
        ensures
            old(self).phase.may_follow(final(self).phase),
            stepped(old(self).phase, report_view(r), final(self).phase),
            final(self).expected_size == old(self).expected_size,
            final(self).since_report == old(self).since_report,
            final(self).root == old(self).root,
            !(old(self).phase is Downloading) ==> *final(self) == *old(self) && r is None,
            old(self).phase is Downloading ==> final(self).bytes@ == Seq::<u8>::empty(),
            old(self).phase is Downloading ==> match zip_opened(old(self).bytes@) {
                Some(entries) => {
                    &&& r == Some(UpdateProgress::Installing)
                    &&& final(self).phase is Installing
                    &&& final(self).archive is Some
                    &&& final(self).entries() == entries
                    &&& final(self).next_entry == 0
                },
                None => {
                    &&& r matches Some(UpdateProgress::Failed(UpdateError::Archive(_)))
                    &&& final(self).phase is Failed
                    &&& final(self).archive == old(self).archive
                    &&& final(self).next_entry == old(self).next_entry
                },
            },
    {
        if self.phase != UpdaterPhase::Downloading {
            return None;
        }
        let mut bytes: Vec<u8> = Vec::new();
        core::mem::swap(&mut bytes, &mut self.bytes);
        match open_archive(bytes) {
            Ok(archive) => {
                self.archive = Some(archive);
                self.next_entry = 0;
                self.phase = UpdaterPhase::Installing;
                Some(UpdateProgress::Installing)
            },
            Err(message) => {
                self.phase = UpdaterPhase::Failed;
                Some(UpdateProgress::Failed(UpdateError::Archive(message)))
            },
        }
    }

    /// What the host had to do last could not be done: the update has failed.
    /// What was written before stays as it is. Outside the installation
    /// nothing happens.
    pub fn action_failed(&mut self, message: String) -> (r: Option<UpdateProgress>)
        ensures
            old(self).phase.may_follow(final(self).phase),
            stepped(old(self).phase, report_view(r), final(self).phase),
            final(self).expected_size == old(self).expected_size,
            final(self).bytes == old(self).bytes,
            final(self).since_report == old(self).since_report,
            final(self).archive == old(self).archive,
            final(self).next_entry == old(self).next_entry,
            final(self).root == old(self).root,
            old(self).phase is Installing ==> final(self).phase is Failed && r == Some(
                UpdateProgress::Failed(UpdateError::Install(message)),
            ),
            !(old(self).phase is Installing) ==> final(self).phase == old(self).phase && r is None,
    {
        if self.phase != UpdaterPhase::Installing {
            return None;
        }
        self.phase = UpdaterPhase::Failed;
        Some(UpdateProgress::Failed(UpdateError::Install(message)))
    }
}

impl UpdateSession {
    /// What the host is to do next to install the update.
    ///
    /// While entries are left, the next one is taken and what `planned` says
    /// of it is handed out; where that is a failure the update has failed, and
    /// the failure is one of the archive.
    /// After the last entry the update has finished. Outside the installation
    /// the result is `None` and nothing happens. The package itself is never
    /// changed.
    pub fn next_action(&mut self) -> (r: Option<InstallAction>)
        ensures
            old(self).phase.may_follow(final(self).phase),
            stepped(old(self).phase, action_report(r), final(self).phase),
            final(self).expected_size == old(self).expected_size,
            final(self).bytes == old(self).bytes,
            final(self).since_report == old(self).since_report,
            final(self).root == old(self).root,
            final(self).entries() == old(self).entries(),
            final(self).archive is Some == old(self).archive is Some,
            !(old(self).phase is Installing && old(self).archive is Some) ==> {
                &&& r is None
                &&& final(self).phase == old(self).phase
                &&& final(self).next_entry == old(self).next_entry
            },
            old(self).phase is Installing && old(self).archive is Some ==> {
                let entries = old(self).entries();
                let next = old(self).next_entry as int;
                &&& r is Some
                &&& (final(self).phase, final(self).next_entry as int) == after_action(
                    old(self).root@,
                    entries,
                    next,
                )
                &&& r matches Some(InstallAction::Failed(error)) ==> error is Archive
                &&& if next >= entries.len() {
                    &&& r == Some(InstallAction::Finished)
                    &&& final(self).phase is Finished
                    &&& final(self).next_entry == old(self).next_entry
                } else {
                    &&& r->0.plan() == planned(old(self).root@, entries[next])
                    &&& if r->0.plan() is Failed {
                        final(self).phase is Failed && final(self).next_entry == next
                    } else {
                        final(self).phase is Installing && final(self).next_entry == next + 1
                    }
                }
            },
    {
        if self.phase != UpdaterPhase::Installing {
            return None;
        }
        let index: usize = self.next_entry;
        let action = match &mut self.archive {
            None => {
                return None;
            },
            Some(archive) => unpack_entry(archive, index, self.root.as_str()),
        };
        match &action {
            InstallAction::Finished => {
                self.phase = UpdaterPhase::Finished;
            },
            InstallAction::Failed(_) => {
                self.phase = UpdaterPhase::Failed;
            },
            _ => {
                self.next_entry = index + 1;
            },
        }
        Some(action)
    }
}

/// What is to be done with the entry at `index` of the package when it is
/// unpacked into `root`; the end of the installation where there is no such
/// entry.
fn unpack_entry(archive: &mut Archive, index: usize, root: &str) -> (r: InstallAction)
    ensures
        archive_entries(*final(archive)) == archive_entries(*old(archive)),
        r.plan() == if index >= archive_entries(*old(archive)).len() {
            InstallPlan::Finished
        } else {
            planned(root@, archive_entries(*old(archive))[index as int])
        },
        r.plan() is Finished ==> r == InstallAction::Finished,
        r matches InstallAction::Failed(error) ==> error is Archive,
        archive_entries(*old(archive)).len() <= usize::MAX,
{
    if index >= archive_len(archive) {
        return InstallAction::Finished;
    }
    let name = match entry_name(archive, index) {
        Ok(name) => name,
        Err(message) => {
            return InstallAction::Failed(UpdateError::Archive(message));
        },
    };
    proof {
        reveal_strlit("/");
    }
    if !is_enclosed(name.as_str()) {
        InstallAction::Skip
    } else if ends_with(name.as_str(), "/") {
        InstallAction::CreateDir(join_path(root, name.as_str()))
    } else {
        match entry_data(archive, index) {
            Ok(data) => InstallAction::WriteFile(join_path(root, name.as_str()), data),
            Err(message) => InstallAction::Failed(UpdateError::Archive(message)),
        }
    }
}

impl Update {
    /// Begins the update: a session that awaits the download of
    /// `expected_size` bytes, or of an unknown number where that is zero.
    pub fn start_update(&self, expected_size: u64) -> (r: UpdateSession)
        ensures
            r.phase is Downloading,
            r.expected_size == expected_size,
            r.bytes@ == Seq::<u8>::empty(),
            r.since_report == 0,
            r.archive is None,
            r.next_entry == 0,
            r.root@ == UPDATE_BASE_PATH@,
    {
        UpdateSession {
            phase: UpdaterPhase::Downloading,
            expected_size,
            bytes: Vec::new(),
            since_report: 0,
            archive: None,
            next_entry: 0,
            root: String::from_str(UPDATE_BASE_PATH),
        }
    }
}

/// A release that is newer than the running build and holds no package of
/// the launcher gives an error: never "no update", and never an update.
pub proof fn lemma_newer_release_without_asset(
    tag: Seq<char>,
    assets: Seq<ReleaseAsset>,
    running: VersionParts,
)
    requires
        semver_parse(tag) is Ok,
        semver_greater(semver_parse(tag)->Ok_0, running),
        forall|j: int|
            0 <= j < assets.len() ==> !is_launcher_asset_name(#[trigger] assets[j].name@),
    ensures
        release_outcome(tag, assets, running) == Err::<
            UpdateCheckResultView,
            UpdateCheckErrorView,
        >(UpdateCheckErrorView::NoReleaseAsset),
{
    lemma_first_launcher_asset(assets);
}

/// A check says "no update" only for a release whose tag is a version that
/// is not newer than the running build: a release that could not be judged
/// never passes for up to date.
pub proof fn lemma_no_update_means_not_newer(
    tag: Seq<char>,
    assets: Seq<ReleaseAsset>,
    running: VersionParts,
)
    requires
        release_outcome(tag, assets, running) == Ok::<
            UpdateCheckResultView,
            UpdateCheckErrorView,
        >(UpdateCheckResultView::NoUpdate),
    ensures
        semver_parse(tag) is Ok,
        !semver_greater(semver_parse(tag)->Ok_0, running),
{
}

/// The progress of a download lies between zero and one and never goes
/// back: with more bytes received, the fraction is at least what it was.
pub proof fn lemma_progress_monotone(earlier: nat, later: nat, expected: u64)
    requires
        earlier <= later,
    ensures
        progress_of(earlier, expected).in_range(),
        progress_of(later, expected).in_range(),
        progress_of(earlier, expected).total == progress_of(later, expected).total,
        progress_of(earlier, expected).received <= progress_of(later, expected).received,
        progress_of(earlier, expected).at_most(progress_of(later, expected)),
        progress_of(earlier, expected).spec_percent() <= progress_of(
            later,
            expected,
        ).spec_percent() <= 100,
{
    let a = progress_of(earlier, expected);
    let b = progress_of(later, expected);
    assert(a.received * b.total <= b.received * a.total) by (nonlinear_arith)
        requires
            a.received <= b.received,
            a.total == b.total,
            a.total >= 0,
    ;
    if expected > 0 && a.received < expected {
        assert((a.received * 100) / (expected as int) <= 100) by (nonlinear_arith)
            requires
                a.received < expected,
                a.received >= 0,
                expected > 0,
        ;
    }
    if expected > 0 && b.received < expected {
        assert((a.received * 100) / (expected as int) <= (b.received * 100) / (expected as int))
            by (nonlinear_arith)
            requires
                a.received <= b.received,
                expected > 0,
        ;
        assert((b.received * 100) / (expected as int) <= 100) by (nonlinear_arith)
            requires
                b.received < expected,
                b.received >= 0,
                expected > 0,
        ;
    }
}

/// Whatever the package holds, a folder is created and a file is written
/// only at the install folder, a slash, and an entry name that is enclosed:
/// no entry is unpacked to a place outside the install folder.
pub proof fn lemma_unpacked_within_root(root: Seq<char>, entry: Option<ArchiveEntry>)
    ensures
        match planned(root, entry) {
            InstallPlan::CreateDir(path) => match entry {
                Some((name, _)) => enclosed(name) && path == joined(root, name),
                None => false,
            },
            InstallPlan::WriteFile(path, data) => match entry {
                Some((name, content)) => enclosed(name) && path == joined(root, name) && content
                    == Some(data),
                None => false,
            },
            _ => true,
        },
{
}

/// An entry whose name is not enclosed is passed over: nothing is written
/// for it, and it does not fail the update.
pub proof fn lemma_escaping_entry_is_skipped(
    root: Seq<char>,
    name: Seq<char>,
    content: Option<Seq<u8>>,
)
    requires
        !enclosed(name),
    ensures
        planned(root, Some((name, content))) == InstallPlan::Skip,
{
}

/// Where the installation stands after one more action, and which entry is
/// next: after the last entry the update has finished; an entry that fails
/// has failed it; any other entry is dealt with, and the next one follows.
pub open spec fn after_action(
    root: Seq<char>,
    entries: Seq<Option<ArchiveEntry>>,
    next: int,
) -> (UpdaterPhase, int) {
    if next >= entries.len() {
        (UpdaterPhase::Finished, next)
    } else if planned(root, entries[next]) is Failed {
        (UpdaterPhase::Failed, next)
    } else {
        (UpdaterPhase::Installing, next + 1)
    }
}

/// How an installation that goes on from the entry `next` ends, where the
/// host carries out every action: finished, or failed at the first entry
/// that cannot be opened or read.
pub open spec fn installation_end(
    root: Seq<char>,
    entries: Seq<Option<ArchiveEntry>>,
    next: int,
) -> UpdaterPhase
    decreases entries.len() - next,
{
    if next < 0 || next >= entries.len() {
        UpdaterPhase::Finished
    } else if planned(root, entries[next]) is Failed {
        UpdaterPhase::Failed
    } else {
        installation_end(root, entries, next + 1)
    }
}

/// An installation whose actions are all carried out finishes exactly where
/// every entry that is left can be opened and, if it is to be written, read:
/// a well-formed package is installed to its end, and entries that lead out of
/// the install folder do not stand in the way.
pub proof fn lemma_installation_finishes(
    root: Seq<char>,
    entries: Seq<Option<ArchiveEntry>>,
    next: int,
)
    requires
        0 <= next,
    ensures
        installation_end(root, entries, next) is Finished <==> forall|i: int|
            next <= i < entries.len() ==> !(#[trigger] planned(root, entries[i]) is Failed),
        installation_end(root, entries, next) is Finished || installation_end(
            root,
            entries,
            next,
        ) is Failed,
    decreases entries.len() - next,
{
    if next < entries.len() {
        lemma_installation_finishes(root, entries, next + 1);
    }
}

/// What a run of steps has reported: the events of its steps, in order.
pub open spec fn events_of(steps: Seq<Option<UpdateProgressView>>) -> Seq<UpdateProgressView>
    decreases steps.len(),
{
    if steps.len() == 0 {
        Seq::<UpdateProgressView>::empty()
    } else {
        match steps.last() {
            Some(event) => events_of(steps.drop_last()).push(event),
            None => events_of(steps.drop_last()),
        }
    }
}

/// Whether `phases` and `steps` are a run of an update: it stands at
/// `phases[i]` before the step `i` and at `phases[i + 1]` after it, and
/// `steps[i]` is what that step reported.
pub open spec fn is_run(phases: Seq<UpdaterPhase>, steps: Seq<Option<UpdateProgressView>>) -> bool {
    &&& phases.len() == steps.len() + 1
    &&& forall|i: int|
        0 <= i < steps.len() ==> stepped(#[trigger] phases[i], steps[i], phases[i + 1])
}

/// Whether the first `n` of `events` are reports of the download's progress.
pub open spec fn all_downloading(events: Seq<UpdateProgressView>, n: int) -> bool {
    forall|i: int| 0 <= i < n ==> #[trigger] events[i] is Downloading
}

/// Whether `events` are in the order in which an update that now stands at
/// `end` reports: the download's progress first; then, once the installation
/// has begun, that it has; then, once the update is over, its end, as the
/// last event. An update finishes only after the installation has begun, and
/// it reports its end once.
pub open spec fn in_order(events: Seq<UpdateProgressView>, end: UpdaterPhase) -> bool {
    let n = events.len() as int;
    match end {
        UpdaterPhase::Downloading => all_downloading(events, n),
        UpdaterPhase::Installing => {
            &&& n >= 1
            &&& events[n - 1] is Installing
            &&& all_downloading(events, n - 1)
        },
        UpdaterPhase::Finished => {
            &&& n >= 2
            &&& events[n - 1] is Finished
            &&& events[n - 2] is Installing
            &&& all_downloading(events, n - 2)
        },
        UpdaterPhase::Failed => {
            &&& n >= 1
            &&& events[n - 1] is Failed
            &&& all_downloading(events, n - 1) || (n >= 2 && events[n - 2] is Installing
                && all_downloading(events, n - 2))
        },
    }
}

/// Whatever the steps of an update, what they report comes in order: any
/// number of reports of the download's progress, then the beginning of the
/// installation, then the end. The end, finished or failed, is reported once
/// and nothing after it; an update that finished reported the installation
/// just before and no failure at all.
pub proof fn lemma_run_reports_in_order(
    phases: Seq<UpdaterPhase>,
    steps: Seq<Option<UpdateProgressView>>,
)
    requires
        is_run(phases, steps),
        phases[0] is Downloading,
    ensures
        in_order(events_of(steps), phases.last()),
    decreases steps.len(),
{
    if steps.len() > 0 {
        let n = steps.len() as int;
        let earlier_phases = phases.drop_last();
        let earlier_steps = steps.drop_last();
        assert(is_run(earlier_phases, earlier_steps)) by {
            assert forall|i: int| 0 <= i < earlier_steps.len() implies stepped(
                #[trigger] earlier_phases[i],
                earlier_steps[i],
                earlier_phases[i + 1],
            ) by {
                assert(stepped(phases[i], steps[i], phases[i + 1]));
            }
        }
        lemma_run_reports_in_order(earlier_phases, earlier_steps);
        let before = events_of(earlier_steps);
        let events = events_of(steps);
        assert(earlier_phases.last() == phases[n - 1]);
        assert(stepped(phases[n - 1], steps[n - 1], phases[n]));
        match steps.last() {
            None => {},
            Some(event) => {
                assert(events == before.push(event));
                assert forall|i: int| 0 <= i < before.len() implies events[i] == before[i] by {}
                assert(events[before.len() as int] == event);
                if all_downloading(before, before.len() as int) {
                    assert(all_downloading(events, before.len() as int));
                }
                if before.len() >= 1 && all_downloading(before, before.len() - 1) {
                    assert(all_downloading(events, before.len() - 1));
                }
            },
        }
    }
}

} // verus!
