//! The catalog of modpacks: one folder each under a base folder, with a
//! manifest that says what the modpack is.

use crate::picture::{
    load_picture, may_read, picture_outcome, was_read, FileContent, Image, ImageLoadError,
    ImageLoadErrorView, ImageView, ICON_HEIGHT, ICON_WIDTH, SPLASH_HEIGHT, SPLASH_WIDTH,
};
use crate::text::{
    ends_with, file_name, join_path, joined, last_component, lemma_text_le_antisymmetric,
    lemma_text_le_total, lemma_text_le_transitive, text_at_most, text_le,
};
use crate::version::{semver_parse, Version, VersionParts};
use vstd::multiset::Multiset;
use vstd::prelude::*;
use vstd::string::*;

verus! {

/// The folder that holds the modpacks, one subfolder each.
pub const MODPACK_BASE_PATH: &'static str =
    "sd:/atmosphere/contents/01003D200BAA2000/romfs/hyperbeam/modpacks";

/// The platform tag that a manifest must carry.
pub const MODPACK_TARGET: &'static str = "RTDX";

/// What a manifest says of its modpack.
#[derive(Debug, Clone, PartialEq, Eq)]
pub struct ModpackMetadata {
    /// The modpack's identity; equal to the name of its folder.
    pub id: String,
    pub name: String,
    pub author: String,
    pub version: Version,
    pub target: String,
}

/// A `ModpackMetadata` as a mathematical value.
pub struct ModpackMetadataView {
    pub id: Seq<char>,
    pub name: Seq<char>,
    pub author: Seq<char>,
    pub version: VersionParts,
    pub target: Seq<char>,
}

impl View for ModpackMetadata {
    type V = ModpackMetadataView;

    open spec fn view(&self) -> ModpackMetadataView {
        ModpackMetadataView {
            id: self.id@,
            name: self.name@,
            author: self.author@,
            version: self.version@,
            target: self.target@,
        }
    }
}

/// The fields of a manifest as they stand in the file, the version still as
/// text.
#[derive(Debug, Clone, PartialEq, Eq)]
pub struct ManifestFields {
    pub id: String,
    pub name: String,
    pub author: String,
    pub version: String,
    pub target: String,
}

/// What was found where a modpack's manifest should be.
#[derive(Debug, Clone, PartialEq, Eq)]
pub enum ManifestFile {
    /// There is no manifest file in the folder.
    Missing,
    /// The file is there and could not be read; the message says why.
    Unreadable(String),
    /// The file is no well-formed manifest; the message says why.
    Malformed(String),
    /// The file was read, and these are its fields.
    Parsed(ManifestFields),
}

/// A `ManifestFields` as a mathematical value.
pub struct ManifestFieldsView {
    pub id: Seq<char>,
    pub name: Seq<char>,
    pub author: Seq<char>,
    pub version: Seq<char>,
    pub target: Seq<char>,
}

/// A `ManifestFile` as a mathematical value.
pub enum ManifestFileView {
    Missing,
    Unreadable(Seq<char>),
    Malformed(Seq<char>),
    Parsed(ManifestFieldsView),
}

impl View for ManifestFields {
    type V = ManifestFieldsView;

    open spec fn view(&self) -> ManifestFieldsView {
        ManifestFieldsView {
            id: self.id@,
            name: self.name@,
            author: self.author@,
            version: self.version@,
            target: self.target@,
        }
    }
}

impl View for ManifestFile {
    type V = ManifestFileView;

    open spec fn view(&self) -> ManifestFileView {
        match self {
            ManifestFile::Missing => ManifestFileView::Missing,
            ManifestFile::Unreadable(m) => ManifestFileView::Unreadable(m@),
            ManifestFile::Malformed(m) => ManifestFileView::Malformed(m@),
            ManifestFile::Parsed(f) => ManifestFileView::Parsed(f@),
        }
    }
}

/// Why a folder is no modpack.
#[derive(Debug, Clone, PartialEq, Eq)]
pub enum ModpackError {
    /// The folder holds no manifest.
    MissingManifest,
    /// The manifest could not be read.
    UnreadableManifest(String),
    /// The manifest is malformed, or its version is no semantic version.
    MalformedManifest(String),
    /// The manifest's id is not the name of the folder.
    IdMismatch,
    /// The manifest is for another platform.
    WrongTarget,
}

/// A `ModpackError` as a mathematical value.
pub enum ModpackErrorView {
    MissingManifest,
    UnreadableManifest(Seq<char>),
    MalformedManifest(Seq<char>),
    IdMismatch,
    WrongTarget,
}

impl View for ModpackError {
    type V = ModpackErrorView;

    open spec fn view(&self) -> ModpackErrorView {
        match self {
            ModpackError::MissingManifest => ModpackErrorView::MissingManifest,
            ModpackError::UnreadableManifest(m) => ModpackErrorView::UnreadableManifest(m@),
            ModpackError::MalformedManifest(m) => ModpackErrorView::MalformedManifest(m@),
            ModpackError::IdMismatch => ModpackErrorView::IdMismatch,
            ModpackError::WrongTarget => ModpackErrorView::WrongTarget,
        }
    }
}

impl ModpackError {
    /// The error in words.
    pub open spec fn message_text(self) -> Seq<char> {
        match self {
            ModpackError::MissingManifest => "modpack.yaml missing in modpack root"@,
            ModpackError::UnreadableManifest(m) => m@,
            ModpackError::MalformedManifest(m) => m@,
            ModpackError::IdMismatch => "Mismatch between folder name and modpack ID"@,
            ModpackError::WrongTarget => "Modpack target must be RTDX"@,
        }
    }

    /// The error in words.
    pub fn message(&self) -> (r: String)
        ensures
            r@ == self.message_text(),
    {
        match self {
            ModpackError::MissingManifest => String::from_str(
                "modpack.yaml missing in modpack root",
            ),
            ModpackError::UnreadableManifest(m) => m.clone(),
            ModpackError::MalformedManifest(m) => m.clone(),
            ModpackError::IdMismatch => String::from_str(
                "Mismatch between folder name and modpack ID",
            ),
            ModpackError::WrongTarget => String::from_str("Modpack target must be RTDX"),
        }
    }
}

/// A folder that passed validation.
#[derive(Debug, Clone, PartialEq, Eq)]
pub struct Modpack {
    pub metadata: ModpackMetadata,
    /// The modpack's folder.
    pub path: String,
    /// The icon, once it has been asked for: the picture, or why there is
    /// none. `None` until then.
    pub icon: Option<Result<Image, ImageLoadError>>,
}

/// A `Modpack` as a mathematical value.
pub struct ModpackView {
    pub metadata: ModpackMetadataView,
    pub path: Seq<char>,
    pub icon: Option<Result<ImageView, ImageLoadErrorView>>,
}

/// The view of an icon slot.
pub open spec fn icon_view(icon: Option<Result<Image, ImageLoadError>>) -> Option<
    Result<ImageView, ImageLoadErrorView>,
> {
    match icon {
        None => None,
        Some(Ok(image)) => Some(Ok(image@)),
        Some(Err(error)) => Some(Err(error@)),
    }
}

impl View for Modpack {
    type V = ModpackView;

    open spec fn view(&self) -> ModpackView {
        ModpackView { metadata: self.metadata@, path: self.path@, icon: icon_view(self.icon) }
    }
}

/// A folder that failed validation, kept to be shown as broken.
#[derive(Debug, Clone, PartialEq, Eq)]
pub struct InvalidModpack {
    pub error: ModpackError,
    pub path: String,
}

/// An `InvalidModpack` as a mathematical value.
pub struct InvalidModpackView {
    pub error: ModpackErrorView,
    pub path: Seq<char>,
}

impl View for InvalidModpack {
    type V = InvalidModpackView;

    open spec fn view(&self) -> InvalidModpackView {
        InvalidModpackView { error: self.error@, path: self.path@ }
    }
}

/// What became of one folder of the catalog.
#[derive(Debug, Clone, PartialEq, Eq)]
pub enum ModpackLoadResult {
    Success(Modpack),
    Invalid(InvalidModpack),
}

/// A `ModpackLoadResult` as a mathematical value.
pub enum ModpackLoadResultView {
    Success(ModpackView),
    Invalid(InvalidModpackView),
}

impl View for ModpackLoadResult {
    type V = ModpackLoadResultView;

    open spec fn view(&self) -> ModpackLoadResultView {
        match self {
            ModpackLoadResult::Success(m) => ModpackLoadResultView::Success(m@),
            ModpackLoadResult::Invalid(m) => ModpackLoadResultView::Invalid(m@),
        }
    }
}

/// What validation makes of the folder at `path` and of what was found where
/// its manifest should be. The checks come in this order: the manifest is
/// there, it can be read, it is well-formed and its version is a semantic
/// version, its id is the folder's name, its target is this platform.
pub open spec fn validated(path: Seq<char>, manifest: ManifestFileView) -> Result<
    ModpackView,
    ModpackErrorView,
> {
    match manifest {
        ManifestFileView::Missing => Err(ModpackErrorView::MissingManifest),
        ManifestFileView::Unreadable(m) => Err(ModpackErrorView::UnreadableManifest(m)),
        ManifestFileView::Malformed(m) => Err(ModpackErrorView::MalformedManifest(m)),
        ManifestFileView::Parsed(fields) => match semver_parse(fields.version) {
            Err(m) => Err(ModpackErrorView::MalformedManifest(m)),
            Ok(version) => if fields.id != last_component(path) {
                Err(ModpackErrorView::IdMismatch)
            } else if fields.target != MODPACK_TARGET@ {
                Err(ModpackErrorView::WrongTarget)
            } else {
                Ok(
                    ModpackView {
                        metadata: ModpackMetadataView {
                            id: fields.id,
                            name: fields.name,
                            author: fields.author,
                            version,
                            target: fields.target,
                        },
                        path,
                        icon: None,
                    },
                )
            },
        },
    }
}

/// The view of the outcome of a validation.
pub open spec fn validation_view(r: Result<Modpack, ModpackError>) -> Result<
    ModpackView,
    ModpackErrorView,
> {
    match r {
        Ok(modpack) => Ok(modpack@),
        Err(error) => Err(error@),
    }
}

impl Modpack {
    /// Validates the folder at `path`, given what was found where its manifest
    /// should be.
    pub fn new(path: &str, manifest: &ManifestFile) -> (r: Result<Modpack, ModpackError>)
        ensures
            validation_view(r) == validated(path@, manifest@),
    {
        match manifest {
            ManifestFile::Missing => Err(ModpackError::MissingManifest),
            ManifestFile::Unreadable(m) => Err(ModpackError::UnreadableManifest(m.clone())),
            ManifestFile::Malformed(m) => Err(ModpackError::MalformedManifest(m.clone())),
            ManifestFile::Parsed(fields) => match Version::parse(fields.version.as_str()) {
                Err(m) => Err(ModpackError::MalformedManifest(m)),
                Ok(version) => {
                    let folder = file_name(path);
                    if fields.id != folder {
                        Err(ModpackError::IdMismatch)
                    } else if fields.target != String::from_str(MODPACK_TARGET) {
                        Err(ModpackError::WrongTarget)
                    } else {
                        Ok(
                            Modpack {
                                metadata: ModpackMetadata {
                                    id: fields.id.clone(),
                                    name: fields.name.clone(),
                                    author: fields.author.clone(),
                                    version,
                                    target: fields.target.clone(),
                                },
                                path: String::from_str(path),
                                icon: None,
                            },
                        )
                    }
                },
            },
        }
    }
}

/// A slot that remembers the first outcome put into it: `fresh` goes in where
/// the slot is empty, and a slot that holds something keeps it.
pub open spec fn memoized<T>(slot: Option<T>, fresh: T) -> Option<T> {
    match slot {
        Some(kept) => Some(kept),
        None => Some(fresh),
    }
}

impl Modpack {
    /// Where the modpack's icon is kept.
    pub open spec fn icon_path(&self) -> Seq<char> {
        joined(self.path@, "icon.png"@)
    }

    /// Where the modpack's splash image is kept.
    pub open spec fn splash_path(&self) -> Seq<char> {
        joined(self.path@, "splash.png"@)
    }

    /// The modpack's icon, loaded at the first call and remembered from then
    /// on.
    ///
    /// On the first call `read` is asked for the bytes of the icon file, and
    /// the outcome, picture or error, is stored. Every later call returns what
    /// is stored and changes nothing: the file is not read again and an error
    /// is not retried.
    pub fn load_icon<F: FnOnce(&str) -> FileContent>(&mut self, read: F) -> (r: &Result<
        Image,
        ImageLoadError,
    >)
        requires
            old(self).icon is None ==> may_read(read, old(self).icon_path()),
        ensures
            final(self).metadata == old(self).metadata,
            final(self).path == old(self).path,
            final(self).icon == memoized(old(self).icon, *r),
            final(self).icon == Some(*r),
            old(self).icon is None ==> exists|content: FileContent|
                was_read(read, old(self).icon_path(), content) && picture_outcome(
                    content,
                    ICON_WIDTH,
                    ICON_HEIGHT,
                    *r,
                ),
    {
        if self.icon.is_none() {
            let path = join_path(self.path.as_str(), "icon.png");
            let loaded = load_picture(path.as_str(), ICON_WIDTH, ICON_HEIGHT, read);
            self.icon = Some(loaded);
        }
        self.icon.as_ref().unwrap()
    }

    /// Forgets the icon, so that a later `load_icon` would read the file
    /// again, and hands out the picture that was held, if one was.
    pub fn unload_icon(&mut self) -> (r: Option<Image>)
        ensures
            final(self).icon is None,
            final(self).metadata == old(self).metadata,
            final(self).path == old(self).path,
            r == match old(self).icon {
                Some(Ok(image)) => Some(image),
                _ => None,
            },
    {
        match self.icon.take() {
            Some(Ok(image)) => Some(image),
            _ => None,
        }
    }

    /// The modpack's splash image, read through `read` at every call.
    pub fn load_splash_image<F: FnOnce(&str) -> FileContent>(&self, read: F) -> (r: Result<
        Image,
        ImageLoadError,
    >)
        requires
            may_read(read, self.splash_path()),
        ensures
            exists|content: FileContent|
                was_read(read, self.splash_path(), content) && picture_outcome(
                    content,
                    SPLASH_WIDTH,
                    SPLASH_HEIGHT,
                    r,
                ),
    {
        let path = join_path(self.path.as_str(), "splash.png");
        load_picture(path.as_str(), SPLASH_WIDTH, SPLASH_HEIGHT, read)
    }
}

/// One item of a folder's listing.
#[derive(Debug, Clone, PartialEq, Eq)]
pub struct DirectoryItem {
    pub name: String,
    /// Whether the item is a regular file.
    pub is_file: bool,
}

/// The extension of plugin files, with its dot.
pub const PLUGIN_SUFFIX: &'static str = ".nro";

/// Whether a file of this name is a plugin: its extension is `nro`, that is
/// the name ends in `.nro` and something stands before the dot.
pub open spec fn is_plugin_name(name: Seq<char>) -> bool {
    PLUGIN_SUFFIX@.is_suffix_of(name) && name.len() > 4
}

/// The paths of the plugins among `items`, the listing of the folder
/// `folder`, in the listing's order: the regular files with the plugin
/// extension.
pub open spec fn plugin_paths(folder: Seq<char>, items: Seq<DirectoryItem>) -> Seq<Seq<char>>
    decreases items.len(),
{
    if items.len() == 0 {
        Seq::<Seq<char>>::empty()
    } else {
        let rest = plugin_paths(folder, items.drop_last());
        let item = items.last();
        if item.is_file && is_plugin_name(item.name@) {
            rest.push(joined(folder, item.name@))
        } else {
            rest
        }
    }
}

/// Whether a file of this name is a plugin.
pub fn is_plugin_file(name: &str) -> (r: bool)
    ensures
        r == is_plugin_name(name@),
{
    ends_with(name, PLUGIN_SUFFIX) && name.unicode_len() > 4
}

/// Why a modpack's plugins could not be loaded. Either is fatal: with part of
/// its plugins a modpack is not safe to run.
#[derive(Debug, Clone, PartialEq, Eq)]
pub enum PluginError {
    /// The plugin at this path was refused.
    RegistrationFailed(String),
    /// The registered plugins could not be committed.
    CommitFailed,
}

impl PluginError {
    /// The error in words.
    pub open spec fn message_text(self) -> Seq<char> {
        match self {
            PluginError::RegistrationFailed(path) => "Failed to add plugin: "@ + path@,
            PluginError::CommitFailed => "Failed to load plugin modules!"@,
        }
    }

    /// The error in words.
    pub fn message(&self) -> (r: String)
        ensures
            r@ == self.message_text(),
    {
        match self {
            PluginError::RegistrationFailed(path) => {
                let mut r = String::from_str("Failed to add plugin: ");
                r.append(path.as_str());
                r
            },
            PluginError::CommitFailed => String::from_str("Failed to load plugin modules!"),
        }
    }
}

/// Whether `register`, asked to register the plugin at `path`, can have
/// answered `accepted`.
pub open spec fn registered<R: Fn(&str) -> bool>(
    register: R,
    path: Seq<char>,
    accepted: bool,
) -> bool {
    exists|p: &str| p@ == path && register.ensures((p,), accepted)
}

/// Whether `register` accepted each of the first `n` of `paths`.
pub open spec fn all_registered<R: Fn(&str) -> bool>(
    register: R,
    paths: Seq<Seq<char>>,
    n: int,
) -> bool {
    forall|i: int| 0 <= i < n ==> registered(register, #[trigger] paths[i], true)
}

/// Whether `register` accepted the first `k` of `paths` and refused the one
/// after them.
pub open spec fn refused_at<R: Fn(&str) -> bool>(
    register: R,
    paths: Seq<Seq<char>>,
    k: int,
) -> bool {
    0 <= k < paths.len() && all_registered(register, paths, k) && registered(
        register,
        paths[k],
        false,
    )
}

/// The items of a listing; none where there is no folder to list.
pub open spec fn listed(listing: Option<Vec<DirectoryItem>>) -> Seq<DirectoryItem> {
    match listing {
        Some(items) => items@,
        None => Seq::<DirectoryItem>::empty(),
    }
}

/// Whether `r` is an outcome that loading the plugins of the folder `folder`
/// with the listing `items` can have. With the number of plugins as the
/// result, `register` accepted every plugin of the listing and `commit`
/// succeeded. With a refused plugin as the result, `register` refused that one
/// and accepted those before it. With a failed commit as the result,
/// `register` accepted every plugin and `commit` failed.
pub open spec fn plugins_outcome<R: Fn(&str) -> bool, C: FnOnce() -> bool>(
    folder: Seq<char>,
    items: Seq<DirectoryItem>,
    register: R,
    commit: C,
    r: Result<usize, PluginError>,
) -> bool {
    let paths = plugin_paths(folder, items);
    match r {
        Ok(count) => count == paths.len() && all_registered(register, paths, paths.len() as int)
            && commit.ensures((), true),
        Err(PluginError::RegistrationFailed(path)) => exists|k: int| #[trigger]
            refused_at(register, paths, k) && paths[k] == path@,
        Err(PluginError::CommitFailed) => all_registered(register, paths, paths.len() as int)
            && commit.ensures((), false),
    }
}

impl Modpack {
    /// The folder that holds the modpack's plugins.
    pub open spec fn plugin_folder(&self) -> Seq<char> {
        joined(self.path@, "plugins"@)
    }

    /// The modpack's plugin folder.
    pub fn plugins_path(&self) -> (r: String)
        ensures
            r@ == self.plugin_folder(),
    {
        join_path(self.path.as_str(), "plugins")
    }

    /// Registers the modpack's plugins and commits them.
    ///
    /// `listing` is the listing of the plugin folder, or `None` where the
    /// modpack has no such folder, which is no error: there is then nothing to
    /// register. Each plugin file is handed to `register`, in the listing's
    /// order, until one is refused; if none is, `commit` is called. The result
    /// is the number of plugins registered, or the first failure.
    pub fn load_plugins<R: Fn(&str) -> bool, C: FnOnce() -> bool>(
        &self,
        listing: &Option<Vec<DirectoryItem>>,
        register: R,
        commit: C,
    ) -> (r: Result<usize, PluginError>)
        requires
            forall|p: &str| register.requires((p,)),
            commit.requires(()),
        ensures
            plugins_outcome(self.plugin_folder(), listed(*listing), register, commit, r),
    {
        let folder = self.plugins_path();
        let mut count: usize = 0;
        if let Some(items) = listing {
            let mut i: usize = 0;
            while i < items.len()
                invariant
                    i <= items.len(),
                    listed(*listing) == items@,
                    folder@ == self.plugin_folder(),
                    forall|p: &str| register.requires((p,)),
                    count == plugin_paths(folder@, items@.subrange(0, i as int)).len(),
                    count <= i,
                    all_registered(
                        register,
                        plugin_paths(folder@, items@.subrange(0, i as int)),
                        count as int,
                    ),
                decreases items.len() - i,
            {
                let item = &items[i];
                let ghost before = plugin_paths(folder@, items@.subrange(0, i as int));
                let ghost upto = items@.subrange(0, i + 1);
                proof {
                    assert(upto.drop_last() =~= items@.subrange(0, i as int));
                    assert(upto.last() == items@[i as int]);
                }
                if item.is_file && is_plugin_file(item.name.as_str()) {
                    let path = join_path(folder.as_str(), item.name.as_str());
                    let accepted = register(path.as_str());
                    proof {
                        assert(registered(register, path@, accepted));
                        assert(plugin_paths(folder@, upto) == before.push(path@));
                        assert forall|j: int| 0 <= j < count implies registered(
                            register,
                            #[trigger] plugin_paths(folder@, upto)[j],
                            true,
                        ) by {
                            assert(plugin_paths(folder@, upto)[j] == before[j]);
                        }
                    }
                    if !accepted {
                        proof {
                            let paths = plugin_paths(folder@, items@);
                            let k = count as int;
                            lemma_plugin_paths_prefix(folder@, items@, i + 1);
                            assert(plugin_paths(folder@, upto)[k] == path@);
                            assert(paths[k] == path@);
                            assert forall|j: int| 0 <= j < k implies registered(
                                register,
                                #[trigger] paths[j],
                                true,
                            ) by {
                                assert(paths[j] == plugin_paths(folder@, upto)[j]);
                            }
                            assert(refused_at(register, paths, k));
                        }
                        return Err(PluginError::RegistrationFailed(path));
                    }
                    count += 1;
                }
                i += 1;
            }
            proof {
                assert(items@.subrange(0, items@.len() as int) =~= items@);
            }
        }
        if commit() {
            Ok(count)
        } else {
            Err(PluginError::CommitFailed)
        }
    }
}

/// The plugins of the first `n` items of a listing are the first plugins of
/// the whole listing.
pub proof fn lemma_plugin_paths_prefix(folder: Seq<char>, items: Seq<DirectoryItem>, n: int)
    requires
        0 <= n <= items.len(),
    ensures
        plugin_paths(folder, items.subrange(0, n)).len() <= plugin_paths(folder, items).len(),
        forall|j: int|
            0 <= j < plugin_paths(folder, items.subrange(0, n)).len() ==> plugin_paths(
                folder,
                items,
            )[j] == #[trigger] plugin_paths(folder, items.subrange(0, n))[j],
    decreases items.len(),
{
    if n == items.len() {
        assert(items.subrange(0, n) =~= items);
    } else {
        assert(items.drop_last().subrange(0, n) =~= items.subrange(0, n));
        lemma_plugin_paths_prefix(folder, items.drop_last(), n);
    }
}

/// One entry of the base folder's listing, with what was found where its
/// manifest should be.
#[derive(Debug, Clone, PartialEq, Eq)]
pub struct FolderEntry {
    pub name: String,
    /// Whether the entry is a folder. Other entries are passed over.
    pub is_dir: bool,
    pub manifest: ManifestFile,
}

/// A `FolderEntry` as a mathematical value.
pub struct FolderEntryView {
    pub name: Seq<char>,
    pub is_dir: bool,
    pub manifest: ManifestFileView,
}

impl View for FolderEntry {
    type V = FolderEntryView;

    open spec fn view(&self) -> FolderEntryView {
        FolderEntryView { name: self.name@, is_dir: self.is_dir, manifest: self.manifest@ }
    }
}

/// Why there is no catalog at all.
#[derive(Debug, Clone, PartialEq, Eq)]
pub enum CatalogError {
    /// The base folder could not be listed; the message says why.
    Unavailable(String),
}

impl CatalogError {
    /// The error in words.
    pub fn message(&self) -> (r: String)
        ensures
            match *self {
                CatalogError::Unavailable(m) => r@ == m@,
            },
    {
        match self {
            CatalogError::Unavailable(m) => m.clone(),
        }
    }
}

/// The views of a listing's entries.
pub open spec fn entries_view(entries: Seq<FolderEntry>) -> Seq<FolderEntryView> {
    Seq::new(entries.len(), |i: int| entries[i]@)
}

/// The views of a catalog's entries.
pub open spec fn catalog_view(results: Seq<ModpackLoadResult>) -> Seq<ModpackLoadResultView> {
    Seq::new(results.len(), |i: int| results[i]@)
}

/// What the catalog holds for the folder `entry` under `base`: the modpack
/// where validation passes, else the folder's path with the reason.
pub open spec fn load_result(base: Seq<char>, entry: FolderEntryView) -> ModpackLoadResultView {
    let path = joined(base, entry.name);
    match validated(path, entry.manifest) {
        Ok(modpack) => ModpackLoadResultView::Success(modpack),
        Err(error) => ModpackLoadResultView::Invalid(InvalidModpackView { error, path }),
    }
}

/// The catalog for the listing `entries` of the folder `base`: one result for
/// each folder, in the listing's order; what is no folder is passed over.
pub open spec fn catalog(base: Seq<char>, entries: Seq<FolderEntryView>) -> Seq<
    ModpackLoadResultView,
>
    decreases entries.len(),
{
    if entries.len() == 0 {
        Seq::<ModpackLoadResultView>::empty()
    } else {
        let rest = catalog(base, entries.drop_last());
        if entries.last().is_dir {
            rest.push(load_result(base, entries.last()))
        } else {
            rest
        }
    }
}

/// How many of the first `n` entries are folders: the place in the catalog of
/// the folder at `n`, if that is one.
pub open spec fn folders_before(entries: Seq<FolderEntryView>, n: int) -> int
    decreases n,
{
    if n <= 0 {
        0
    } else {
        folders_before(entries, n - 1) + if entries[n - 1].is_dir {
            1int
        } else {
            0int
        }
    }
}

/// Loads the folder `entry` under `base`.
fn load_folder(base: &str, entry: &FolderEntry) -> (r: ModpackLoadResult)
    ensures
        r@ == load_result(base@, entry@),
{
    let path = join_path(base, entry.name.as_str());
    match Modpack::new(path.as_str(), &entry.manifest) {
        Ok(modpack) => ModpackLoadResult::Success(modpack),
        Err(error) => ModpackLoadResult::Invalid(InvalidModpack { error, path }),
    }
}

/// Builds the catalog from the listing of the base folder, in the listing's
/// order.
///
/// `listing` is what listing `base` gave: its entries, each with what was
/// found where its manifest should be, or the reason why the folder could not
/// be listed. Only that reason makes the whole fail. A folder that is no
/// valid modpack stands in the catalog as invalid, with the reason.
///
/// The order of the catalog is that of the listing, which a file system is
/// free to choose; `load_all_modpacks_sorted` gives a catalog that does not
/// depend on it.
pub fn load_all_modpacks(base: &str, listing: &Result<Vec<FolderEntry>, String>) -> (r: Result<
    Vec<ModpackLoadResult>,
    CatalogError,
>)
    ensures
        match *listing {
            Ok(entries) => r is Ok && catalog_view(r->Ok_0@) == catalog(
                base@,
                entries_view(entries@),
            ),
            Err(message) => r is Err && r->Err_0 == CatalogError::Unavailable(message),
        },
{
    match listing {
        Err(message) => Err(CatalogError::Unavailable(message.clone())),
        Ok(entries) => {
            let mut modpacks: Vec<ModpackLoadResult> = Vec::new();
            let mut i: usize = 0;
            assert(entries_view(entries@).subrange(0, 0) =~= Seq::<FolderEntryView>::empty());
            while i < entries.len()
                invariant
                    i <= entries.len(),
                    catalog_view(modpacks@) == catalog(
                        base@,
                        entries_view(entries@).subrange(0, i as int),
                    ),
                decreases entries.len() - i,
            {
                let entry = &entries[i];
                proof {
                    let upto = entries_view(entries@).subrange(0, i + 1);
                    assert(upto.drop_last() =~= entries_view(entries@).subrange(0, i as int));
                    assert(upto.last() == entry@);
                }
                if entry.is_dir {
                    let ghost before = modpacks@;
                    let loaded = load_folder(base, entry);
                    modpacks.push(loaded);
                    assert(catalog_view(modpacks@) =~= catalog_view(before).push(loaded@));
                }
                i += 1;
            }
            assert(entries_view(entries@).subrange(0, entries@.len() as int) =~= entries_view(
                entries@,
            ));
            Ok(modpacks)
        },
    }
}

/// Whether the entries stand in the order of their names.
pub open spec fn sorted_by_name(entries: Seq<FolderEntry>) -> bool {
    forall|i: int, j: int|
        0 <= i < j < entries.len() ==> text_le(
            #[trigger] entries[i].name@,
            #[trigger] entries[j].name@,
        )
}

/// Puts a listing in the order of its entries' names, so that the catalog
/// does not depend on the order in which the file system lists a folder.
/// The result holds the same entries, each as often as the listing did.
pub fn sort_by_folder_name(entries: Vec<FolderEntry>) -> (r: Vec<FolderEntry>)
    ensures
        sorted_by_name(r@),
        r@.to_multiset() == entries@.to_multiset(),
        r@.len() == entries@.len(),
{
    broadcast use vstd::multiset::group_multiset_axioms;

    let mut rest = entries;
    let mut sorted: Vec<FolderEntry> = Vec::new();
    proof {
        sorted@.to_multiset_ensures();
        assert(sorted@.to_multiset() =~= Multiset::<FolderEntry>::empty());
        assert(sorted@.to_multiset().add(rest@.to_multiset()) =~= entries@.to_multiset());
    }
    loop
        invariant
            sorted_by_name(sorted@),
            sorted@.to_multiset().add(rest@.to_multiset()) == entries@.to_multiset(),
            sorted@.len() + rest@.len() == entries@.len(),
        decreases rest@.len(),
    {
        let ghost before = rest@;
        let ghost placed = sorted@;
        let entry = match rest.pop() {
            Some(entry) => entry,
            None => {
                proof {
                    rest@.to_multiset_ensures();
                    assert(rest@.to_multiset() =~= Multiset::<FolderEntry>::empty());
                    assert(sorted@.to_multiset() =~= entries@.to_multiset());
                }
                return sorted;
            },
        };
        proof {
            assert(before =~= rest@.push(entry));
            vstd::seq_lib::to_multiset_build(rest@, entry);
            assert(before.to_multiset() =~= rest@.to_multiset().insert(entry));
        }
        let mut place: usize = 0;
        while place < sorted.len() && text_at_most(
            sorted[place].name.as_str(),
            entry.name.as_str(),
        )
            invariant
                place <= sorted@.len(),
                sorted@ == placed,
                forall|k: int| 0 <= k < place ==> text_le(#[trigger] sorted@[k].name@, entry.name@),
            decreases sorted@.len() - place,
        {
            place += 1;
        }
        sorted.insert(place, entry);
        proof {
            vstd::seq_lib::to_multiset_insert(placed, place as int, entry);
            assert(sorted@.to_multiset() =~= placed.to_multiset().insert(entry));
            assert(sorted@.to_multiset().add(rest@.to_multiset()) =~= entries@.to_multiset());
            assert forall|i: int, j: int| 0 <= i < j < sorted@.len() implies text_le(
                #[trigger] sorted@[i].name@,
                #[trigger] sorted@[j].name@,
            ) by {
                let at = place as int;
                if j < at {
                    assert(sorted@[i] == placed[i] && sorted@[j] == placed[j]);
                } else if j == at {
                    assert(sorted@[i] == placed[i]);
                } else if i < at {
                    assert(sorted@[i] == placed[i] && sorted@[j] == placed[j - 1]);
                } else if i == at {
                    assert(sorted@[j] == placed[j - 1]);
                    lemma_text_le_total(placed[at].name@, entry.name@);
                    if j - 1 > at {
                        lemma_text_le_transitive(
                            entry.name@,
                            placed[at].name@,
                            placed[j - 1].name@,
                        );
                    }
                } else {
                    assert(sorted@[i] == placed[i - 1] && sorted@[j] == placed[j - 1]);
                }
            }
        }
    }
}

/// Whether `sorted` is `entries` put in the order of the names: it stands in
/// that order and holds the same entries, each as often.
pub open spec fn is_sorting_of(sorted: Seq<FolderEntry>, entries: Seq<FolderEntry>) -> bool {
    sorted_by_name(sorted) && sorted.to_multiset() == entries.to_multiset()
}

/// Builds the catalog from the listing of the base folder, in the order of
/// the folders' names.
///
/// The listing is put in the order of its entries' names first, and the
/// catalog is that of the sorted listing: whatever order the file system
/// lists the folder in, the catalog stands in the order of the names.
pub fn load_all_modpacks_sorted(base: &str, listing: Result<Vec<FolderEntry>, String>) -> (r:
    Result<Vec<ModpackLoadResult>, CatalogError>)
    ensures
        match listing {
            Ok(entries) => r is Ok && exists|sorted: Seq<FolderEntry>| #[trigger]
                is_sorting_of(sorted, entries@) && catalog_view(r->Ok_0@) == catalog(
                    base@,
                    entries_view(sorted),
                ),
            Err(message) => r is Err && r->Err_0 == CatalogError::Unavailable(message),
        },
{
    match listing {
        Ok(entries) => {
            let ghost listed = entries@;
            let sorted = sort_by_folder_name(entries);
            assert(is_sorting_of(sorted@, listed));
            load_all_modpacks(base, &Ok(sorted))
        },
        Err(message) => Err(CatalogError::Unavailable(message)),
    }
}

/// Whether no two entries bear the same name, as it is with the entries of
/// one folder.
pub open spec fn distinct_names(entries: Seq<FolderEntry>) -> bool {
    forall|i: int, j: int|
        0 <= i < entries.len() && 0 <= j < entries.len() && i != j ==> #[trigger] entries[i].name@
            != #[trigger] entries[j].name@
}

/// Entries with distinct names keep distinct names in whatever order they
/// are put.
pub proof fn lemma_distinct_names_kept(entries: Seq<FolderEntry>, reordered: Seq<FolderEntry>)
    requires
        distinct_names(entries),
        reordered.to_multiset() == entries.to_multiset(),
    ensures
        distinct_names(reordered),
{
    broadcast use vstd::multiset::group_multiset_axioms;

    assert(entries.no_duplicates()) by {
        assert forall|i: int, j: int|
            0 <= i < entries.len() && 0 <= j < entries.len() && i != j implies entries[i]
            != entries[j] by {
            assert(entries[i].name@ != entries[j].name@);
        }
    }
    entries.lemma_multiset_has_no_duplicates();
    reordered.lemma_multiset_has_no_duplicates_conv();
    entries.to_multiset_ensures();
    reordered.to_multiset_ensures();
    assert forall|i: int, j: int|
        0 <= i < reordered.len() && 0 <= j < reordered.len() && i != j implies
        #[trigger] reordered[i].name@ != #[trigger] reordered[j].name@ by {
        assert(reordered.contains(reordered[i]));
        assert(reordered.contains(reordered[j]));
        assert(reordered.to_multiset().count(reordered[i]) > 0);
        assert(reordered.to_multiset().count(reordered[j]) > 0);
        assert(entries.to_multiset().count(reordered[i]) > 0);
        assert(entries.to_multiset().count(reordered[j]) > 0);
        assert(entries.contains(reordered[i]));
        assert(entries.contains(reordered[j]));
        let p = choose|p: int| 0 <= p < entries.len() && entries[p] == reordered[i];
        let q = choose|q: int| 0 <= q < entries.len() && entries[q] == reordered[j];
        assert(reordered[i] != reordered[j]);
        assert(p != q);
        assert(entries[p].name@ != entries[q].name@);
    }
}

/// There is one way only to put entries with distinct names in the order of
/// their names.
pub proof fn lemma_sorting_is_unique(first: Seq<FolderEntry>, second: Seq<FolderEntry>)
    requires
        sorted_by_name(first),
        sorted_by_name(second),
        distinct_names(first),
        distinct_names(second),
        first.to_multiset() == second.to_multiset(),
    ensures
        first == second,
    decreases first.len(),
{
    broadcast use vstd::multiset::group_multiset_axioms;

    first.to_multiset_ensures();
    second.to_multiset_ensures();
    if first.len() == 0 {
        assert(first =~= second);
    } else {
        let x = first[0];
        let y = second[0];
        assert(first.contains(x));
        assert(first.to_multiset().count(x) > 0);
        assert(second.to_multiset().count(x) > 0);
        assert(second.contains(x));
        assert(second.contains(y));
        assert(second.to_multiset().count(y) > 0);
        assert(first.to_multiset().count(y) > 0);
        assert(first.contains(y));
        let k = choose|k: int| 0 <= k < second.len() && second[k] == x;
        let m = choose|m: int| 0 <= m < first.len() && first[m] == y;
        if k != 0 && m != 0 {
            assert(text_le(first[0].name@, first[m].name@));
            assert(text_le(second[0].name@, second[k].name@));
            lemma_text_le_antisymmetric(x.name@, y.name@);
            assert(second[0].name@ != second[k].name@);
        }
        assert(x == y);
        let rest_first = first.drop_first();
        let rest_second = second.drop_first();
        assert(rest_first =~= first.remove(0));
        assert(rest_second =~= second.remove(0));
        vstd::seq_lib::to_multiset_remove(first, 0);
        vstd::seq_lib::to_multiset_remove(second, 0);
        assert(sorted_by_name(rest_first)) by {
            assert forall|i: int, j: int| 0 <= i < j < rest_first.len() implies text_le(
                #[trigger] rest_first[i].name@,
                #[trigger] rest_first[j].name@,
            ) by {
                assert(text_le(first[i + 1].name@, first[j + 1].name@));
            }
        }
        assert(sorted_by_name(rest_second)) by {
            assert forall|i: int, j: int| 0 <= i < j < rest_second.len() implies text_le(
                #[trigger] rest_second[i].name@,
                #[trigger] rest_second[j].name@,
            ) by {
                assert(text_le(second[i + 1].name@, second[j + 1].name@));
            }
        }
        assert(distinct_names(rest_first)) by {
            assert forall|i: int, j: int|
                0 <= i < rest_first.len() && 0 <= j < rest_first.len() && i != j implies
                #[trigger] rest_first[i].name@ != #[trigger] rest_first[j].name@ by {
                assert(first[i + 1].name@ != first[j + 1].name@);
            }
        }
        assert(distinct_names(rest_second)) by {
            assert forall|i: int, j: int|
                0 <= i < rest_second.len() && 0 <= j < rest_second.len() && i != j implies
                #[trigger] rest_second[i].name@ != #[trigger] rest_second[j].name@ by {
                assert(second[i + 1].name@ != second[j + 1].name@);
            }
        }
        lemma_sorting_is_unique(rest_first, rest_second);
        assert(first =~= seq![x] + rest_first);
        assert(second =~= seq![y] + rest_second);
    }
}

/// The sorted catalog does not depend on the order in which a folder is
/// listed: two listings that hold the same entries, with distinct names,
/// sort to one and the same listing, and so give one and the same catalog.
pub proof fn lemma_sorted_catalog_is_one(
    base: Seq<char>,
    listing: Seq<FolderEntry>,
    relisting: Seq<FolderEntry>,
    sorted: Seq<FolderEntry>,
    resorted: Seq<FolderEntry>,
)
    requires
        distinct_names(listing),
        relisting.to_multiset() == listing.to_multiset(),
        is_sorting_of(sorted, listing),
        is_sorting_of(resorted, relisting),
    ensures
        sorted == resorted,
        catalog(base, entries_view(sorted)) == catalog(base, entries_view(resorted)),
{
    lemma_distinct_names_kept(listing, sorted);
    lemma_distinct_names_kept(listing, resorted);
    lemma_sorting_is_unique(sorted, resorted);
}

/// The folder that an entry of the catalog stands for.
pub open spec fn entry_path(entry: ModpackLoadResultView) -> Seq<char> {
    match entry {
        ModpackLoadResultView::Success(modpack) => modpack.path,
        ModpackLoadResultView::Invalid(invalid) => invalid.path,
    }
}

/// Among more entries there are no fewer folders.
pub proof fn lemma_folders_before_monotone(entries: Seq<FolderEntryView>, a: int, b: int)
    requires
        0 <= a <= b <= entries.len(),
    ensures
        folders_before(entries, a) <= folders_before(entries, b),
    decreases b - a,
{
    if a < b {
        lemma_folders_before_monotone(entries, a, b - 1);
    }
}

/// The catalog of a listing that stands in the order of its names stands in
/// that order too: of two folders of the listing, the one whose name comes
/// first has its entry first in the catalog, and each entry stands for the
/// folder of that name under the base folder.
pub proof fn lemma_sorted_catalog_in_name_order(
    base: Seq<char>,
    sorted: Seq<FolderEntry>,
    p: int,
    q: int,
)
    requires
        sorted_by_name(sorted),
        0 <= p < q < sorted.len(),
        sorted[p].is_dir,
        sorted[q].is_dir,
    ensures
        ({
            let listing = entries_view(sorted);
            let entries = catalog(base, listing);
            let first = folders_before(listing, p);
            let second = folders_before(listing, q);
            &&& 0 <= first < second < entries.len()
            &&& entry_path(entries[first]) == joined(base, sorted[p].name@)
            &&& entry_path(entries[second]) == joined(base, sorted[q].name@)
            &&& text_le(sorted[p].name@, sorted[q].name@)
        }),
{
    let listing = entries_view(sorted);
    lemma_catalog_entry(base, listing, p);
    lemma_catalog_entry(base, listing, q);
    lemma_folders_before_monotone(listing, p + 1, q);
    assert(folders_before(listing, p + 1) == folders_before(listing, p) + 1);
}

/// The catalog holds the folders of the listing in the listing's order: the
/// folder at `i` stands at the place that the count of folders before it
/// gives, and the catalog is as long as the listing has folders.
pub proof fn lemma_catalog_entry(base: Seq<char>, entries: Seq<FolderEntryView>, i: int)
    requires
        0 <= i < entries.len(),
        entries[i].is_dir,
    ensures
        catalog(base, entries).len() == folders_before(entries, entries.len() as int),
        0 <= folders_before(entries, i) < catalog(base, entries).len(),
        catalog(base, entries)[folders_before(entries, i)] == load_result(base, entries[i]),
    decreases entries.len(),
{
    let n = entries.len() as int;
    let shorter = entries.drop_last();
    lemma_folders_before_prefix(entries, n - 1);
    lemma_catalog_len(base, shorter);
    lemma_catalog_len(base, entries);
    if i == n - 1 {
        lemma_folders_before_prefix(entries, i);
    } else {
        lemma_catalog_entry(base, shorter, i);
        lemma_folders_before_prefix(entries, i);
    }
}

/// The catalog is as long as the listing has folders.
pub proof fn lemma_catalog_len(base: Seq<char>, entries: Seq<FolderEntryView>)
    ensures
        catalog(base, entries).len() == folders_before(entries, entries.len() as int),
    decreases entries.len(),
{
    if entries.len() > 0 {
        lemma_catalog_len(base, entries.drop_last());
        lemma_folders_before_prefix(entries, entries.len() - 1);
    }
}

/// The count of folders among the first `n` entries does not depend on what
/// the last entry is.
pub proof fn lemma_folders_before_prefix(entries: Seq<FolderEntryView>, n: int)
    requires
        0 <= n < entries.len(),
    ensures
        folders_before(entries.drop_last(), n) == folders_before(entries, n),
        0 <= folders_before(entries, n) <= n,
    decreases n,
{
    if n > 0 {
        lemma_folders_before_prefix(entries, n - 1);
    }
}

/// A folder without a manifest stands in the catalog as invalid, with the
/// missing manifest as the reason; it is never a success.
pub proof fn lemma_missing_manifest_is_invalid(
    base: Seq<char>,
    entries: Seq<FolderEntryView>,
    i: int,
)
    requires
        0 <= i < entries.len(),
        entries[i].is_dir,
        entries[i].manifest is Missing,
    ensures
        0 <= folders_before(entries, i) < catalog(base, entries).len(),
        catalog(base, entries)[folders_before(entries, i)] == ModpackLoadResultView::Invalid(
            InvalidModpackView {
                error: ModpackErrorView::MissingManifest,
                path: joined(base, entries[i].name),
            },
        ),
{
    lemma_catalog_entry(base, entries, i);
}

/// A folder whose manifest was read, with a version that is a semantic
/// version and an id that is not the folder's name, stands in the catalog as
/// invalid, with the mismatch as the reason, whatever else the manifest says.
pub proof fn lemma_id_mismatch_is_invalid(
    base: Seq<char>,
    entries: Seq<FolderEntryView>,
    i: int,
)
    requires
        0 <= i < entries.len(),
        entries[i].is_dir,
        entries[i].manifest is Parsed,
        semver_parse(entries[i].manifest->Parsed_0.version) is Ok,
        entries[i].manifest->Parsed_0.id != last_component(joined(base, entries[i].name)),
    ensures
        0 <= folders_before(entries, i) < catalog(base, entries).len(),
        catalog(base, entries)[folders_before(entries, i)] == ModpackLoadResultView::Invalid(
            InvalidModpackView {
                error: ModpackErrorView::IdMismatch,
                path: joined(base, entries[i].name),
            },
        ),
{
    lemma_catalog_entry(base, entries, i);
}

/// What is remembered is kept: once a slot holds an outcome, putting another
/// into it changes nothing. So where a first `load_icon` stored `first` and a
/// second one returned `second` from the slot it left, the two are the same.
pub proof fn lemma_memoized_once<T>(slot: Option<T>, first: T, second: T)
    ensures
        memoized(memoized(slot, first), second) == memoized(slot, first),
        slot is Some ==> memoized(slot, first) == slot,
        memoized(slot, first) == Some(first) && memoized(memoized(slot, first), second) == Some(
            second,
        ) ==> second == first,
{
}

} // verus!
