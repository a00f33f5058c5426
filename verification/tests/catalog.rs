use hyperbeam_launcher::modpack::{
    is_plugin_file, load_all_modpacks, load_all_modpacks_sorted, CatalogError, DirectoryItem,
    FolderEntry, ManifestFields, ManifestFile, Modpack, ModpackError, ModpackLoadResult,
    PluginError, MODPACK_BASE_PATH,
};
use hyperbeam_launcher::picture::{check_dimensions, decode_image, ImageLoadError};
use hyperbeam_launcher::version::Version;
use std::cell::{Cell, RefCell};

fn fields(id: &str, version: &str, target: &str) -> ManifestFields {
    ManifestFields {
        id: String::from(id),
        name: String::from("Test Hack"),
        author: String::from("tech-ticks"),
        version: String::from(version),
        target: String::from(target),
    }
}

fn folder(name: &str, manifest: ManifestFile) -> FolderEntry {
    FolderEntry { name: String::from(name), is_dir: true, manifest }
}

fn valid_modpack(id: &str) -> Modpack {
    let path = format!("/mods/{}", id);
    Modpack::new(&path, &ManifestFile::Parsed(fields(id, "1.2.3", "RTDX"))).unwrap()
}

/// A PNG of the given size whose top row is red and whose other rows are blue.
fn png(width: u32, height: u32) -> Vec<u8> {
    let mut buffer = image::RgbaImage::new(width, height);
    for y in 0..height {
        for x in 0..width {
            let colour = if y == 0 { [255, 0, 0, 255] } else { [0, 0, 255, 255] };
            buffer.put_pixel(x, y, image::Rgba(colour));
        }
    }
    let mut bytes = std::io::Cursor::new(Vec::new());
    image::DynamicImage::ImageRgba8(buffer)
        .write_to(&mut bytes, image::ImageOutputFormat::Png)
        .unwrap();
    bytes.into_inner()
}

#[test]
fn valid_manifest_gives_a_modpack() {
    let manifest = ManifestFile::Parsed(fields("foo", "1.2.3-beta.1+build5", "RTDX"));
    let modpack = Modpack::new("/mods/foo", &manifest).unwrap();
    assert_eq!(modpack.metadata.id, "foo");
    assert_eq!(modpack.metadata.name, "Test Hack");
    assert_eq!(modpack.metadata.author, "tech-ticks");
    assert_eq!(modpack.metadata.target, "RTDX");
    assert_eq!(
        modpack.metadata.version,
        Version {
            major: 1,
            minor: 2,
            patch: 3,
            pre: String::from("beta.1"),
            build: String::from("build5"),
        }
    );
    assert_eq!(modpack.path, "/mods/foo");
    assert_eq!(modpack.icon, None);
}

#[test]
fn folder_without_manifest_is_invalid() {
    let result = Modpack::new("/mods/bar", &ManifestFile::Missing);
    assert_eq!(result, Err(ModpackError::MissingManifest));
    assert_eq!(
        ModpackError::MissingManifest.message(),
        "modpack.yaml missing in modpack root"
    );
}

#[test]
fn unreadable_and_malformed_manifests_keep_their_message() {
    let unreadable = Modpack::new("/mods/a", &ManifestFile::Unreadable(String::from("denied")));
    assert_eq!(unreadable, Err(ModpackError::UnreadableManifest(String::from("denied"))));
    let malformed = Modpack::new("/mods/a", &ManifestFile::Malformed(String::from("bad yaml")));
    assert_eq!(malformed, Err(ModpackError::MalformedManifest(String::from("bad yaml"))));
    assert_eq!(malformed.unwrap_err().message(), "bad yaml");
}

#[test]
fn version_that_is_no_semantic_version_is_a_malformed_manifest() {
    let result = Modpack::new("/mods/foo", &ManifestFile::Parsed(fields("foo", "1.0", "RTDX")));
    match result {
        Err(ModpackError::MalformedManifest(message)) => assert!(!message.is_empty()),
        other => panic!("unexpected result: {:?}", other),
    }
}

#[test]
fn id_that_is_not_the_folder_name_is_a_mismatch() {
    let manifest = ManifestFile::Parsed(fields("foo", "1.0.0", "RTDX"));
    let result = Modpack::new("/mods/renamed", &manifest);
    assert_eq!(result, Err(ModpackError::IdMismatch));
    assert_eq!(
        ModpackError::IdMismatch.message(),
        "Mismatch between folder name and modpack ID"
    );
}

#[test]
fn id_mismatch_is_reported_before_a_wrong_target() {
    let manifest = ManifestFile::Parsed(fields("foo", "1.0.0", "OTHER"));
    assert_eq!(Modpack::new("/mods/bar", &manifest), Err(ModpackError::IdMismatch));
}

#[test]
fn malformed_version_is_reported_before_an_id_mismatch() {
    let manifest = ManifestFile::Parsed(fields("foo", "one", "RTDX"));
    match Modpack::new("/mods/bar", &manifest) {
        Err(ModpackError::MalformedManifest(_)) => {}
        other => panic!("unexpected result: {:?}", other),
    }
}

#[test]
fn manifest_for_another_platform_is_refused() {
    let manifest = ManifestFile::Parsed(fields("foo", "1.0.0", "rtdx"));
    let result = Modpack::new("/mods/foo", &manifest);
    assert_eq!(result, Err(ModpackError::WrongTarget));
    assert_eq!(ModpackError::WrongTarget.message(), "Modpack target must be RTDX");
}

#[test]
fn folder_name_is_what_follows_the_last_slash() {
    let manifest = ManifestFile::Parsed(fields("foo", "1.0.0", "RTDX"));
    assert!(Modpack::new("foo", &manifest).is_ok());
    assert!(Modpack::new("sd:/a/b/foo", &manifest).is_ok());
    assert_eq!(Modpack::new("sd:/a/foo/", &manifest), Err(ModpackError::IdMismatch));
}

#[test]
fn catalog_holds_valid_and_invalid_folders_in_listing_order() {
    let listing = Ok(vec![
        folder("foo", ManifestFile::Parsed(fields("foo", "1.0.0", "RTDX"))),
        folder("bar", ManifestFile::Missing),
    ]);
    let catalog = load_all_modpacks("/mods", &listing).unwrap();
    assert_eq!(catalog.len(), 2);
    match &catalog[0] {
        ModpackLoadResult::Success(modpack) => {
            assert_eq!(modpack.metadata.id, "foo");
            assert_eq!(modpack.path, "/mods/foo");
        }
        other => panic!("unexpected entry: {:?}", other),
    }
    match &catalog[1] {
        ModpackLoadResult::Invalid(invalid) => {
            assert_eq!(invalid.error, ModpackError::MissingManifest);
            assert_eq!(invalid.path, "/mods/bar");
        }
        other => panic!("unexpected entry: {:?}", other),
    }
}

#[test]
fn catalog_passes_over_what_is_no_folder() {
    let listing = Ok(vec![
        FolderEntry {
            name: String::from("readme.txt"),
            is_dir: false,
            manifest: ManifestFile::Missing,
        },
        folder("b", ManifestFile::Parsed(fields("b", "0.1.0", "RTDX"))),
        FolderEntry {
            name: String::from("a"),
            is_dir: false,
            manifest: ManifestFile::Parsed(fields("a", "0.1.0", "RTDX")),
        },
        folder("c", ManifestFile::Parsed(fields("x", "0.1.0", "RTDX"))),
    ]);
    let catalog = load_all_modpacks("/mods", &listing).unwrap();
    assert_eq!(catalog.len(), 2);
    assert!(matches!(&catalog[0], ModpackLoadResult::Success(m) if m.metadata.id == "b"));
    assert!(
        matches!(&catalog[1], ModpackLoadResult::Invalid(m) if m.error == ModpackError::IdMismatch)
    );
}

fn catalog_paths(catalog: &[ModpackLoadResult]) -> Vec<String> {
    catalog
        .iter()
        .map(|entry| match entry {
            ModpackLoadResult::Success(modpack) => modpack.path.clone(),
            ModpackLoadResult::Invalid(invalid) => invalid.path.clone(),
        })
        .collect()
}

#[test]
fn sorted_catalog_stands_in_the_order_of_the_folder_names() {
    let listing = vec![
        folder("foo", ManifestFile::Parsed(fields("foo", "1.0.0", "RTDX"))),
        FolderEntry {
            name: String::from("aaa.txt"),
            is_dir: false,
            manifest: ManifestFile::Missing,
        },
        folder("bar", ManifestFile::Missing),
        folder("Zed", ManifestFile::Parsed(fields("Zed", "0.1.0", "RTDX"))),
    ];
    let catalog = load_all_modpacks_sorted("/mods", Ok(listing.clone())).unwrap();
    assert_eq!(catalog_paths(&catalog), vec!["/mods/Zed", "/mods/bar", "/mods/foo"]);
    assert!(matches!(&catalog[0], ModpackLoadResult::Success(m) if m.metadata.id == "Zed"));
    assert!(matches!(
        &catalog[1],
        ModpackLoadResult::Invalid(m) if m.error == ModpackError::MissingManifest
    ));
    assert!(matches!(&catalog[2], ModpackLoadResult::Success(m) if m.metadata.id == "foo"));
}

#[test]
fn sorted_catalog_does_not_depend_on_the_order_of_the_listing() {
    let a = folder("a", ManifestFile::Parsed(fields("a", "1.0.0", "RTDX")));
    let b = folder("b", ManifestFile::Missing);
    let c = folder("c", ManifestFile::Parsed(fields("x", "1.0.0", "RTDX")));
    let orders = [
        vec![a.clone(), b.clone(), c.clone()],
        vec![a.clone(), c.clone(), b.clone()],
        vec![b.clone(), a.clone(), c.clone()],
        vec![b.clone(), c.clone(), a.clone()],
        vec![c.clone(), a.clone(), b.clone()],
        vec![c.clone(), b.clone(), a.clone()],
    ];
    let expected = load_all_modpacks("/mods", &Ok(vec![a, b, c])).unwrap();
    for order in orders {
        assert_eq!(load_all_modpacks_sorted("/mods", Ok(order)).unwrap(), expected);
    }
}

#[test]
fn sorted_catalog_is_unavailable_when_the_base_folder_cannot_be_listed() {
    assert_eq!(
        load_all_modpacks_sorted("/mods", Err(String::from("no such folder"))),
        Err(CatalogError::Unavailable(String::from("no such folder")))
    );
}

#[test]
fn empty_listing_gives_an_empty_catalog() {
    let catalog = load_all_modpacks(MODPACK_BASE_PATH, &Ok(Vec::new())).unwrap();
    assert!(catalog.is_empty());
}

#[test]
fn catalog_is_unavailable_when_the_base_folder_cannot_be_listed() {
    let listing = Err(String::from("no such folder"));
    let result = load_all_modpacks("/mods", &listing);
    assert_eq!(result, Err(CatalogError::Unavailable(String::from("no such folder"))));
    assert_eq!(result.unwrap_err().message(), "no such folder");
}

#[test]
fn base_path_is_the_modpack_folder_on_the_card() {
    assert_eq!(
        MODPACK_BASE_PATH,
        "sd:/atmosphere/contents/01003D200BAA2000/romfs/hyperbeam/modpacks"
    );
}

#[test]
fn icon_is_loaded_once_and_remembered() {
    let mut modpack = valid_modpack("foo");
    let calls = Cell::new(0u32);
    let asked = RefCell::new(Vec::new());
    let bytes = png(250, 250);
    let first = modpack
        .load_icon(|path: &str| {
            calls.set(calls.get() + 1);
            asked.borrow_mut().push(String::from(path));
            Ok(bytes.clone())
        })
        .clone();
    assert_eq!(calls.get(), 1);
    assert_eq!(asked.borrow().as_slice(), [String::from("/mods/foo/icon.png")]);
    let image = first.clone().unwrap();
    assert_eq!((image.width, image.height), (250, 250));
    assert_eq!(image.pixels.len(), 250 * 250 * 4);
    let second = modpack
        .load_icon(|_: &str| {
            calls.set(calls.get() + 1);
            Err(String::from("must not be asked"))
        })
        .clone();
    assert_eq!(calls.get(), 1);
    assert_eq!(second, first);
    assert_eq!(modpack.icon, Some(first));
}

#[test]
fn icon_error_is_remembered_and_not_retried() {
    let mut modpack = valid_modpack("foo");
    let calls = Cell::new(0u32);
    let first = modpack
        .load_icon(|_: &str| {
            calls.set(calls.get() + 1);
            Err(String::from("file not found"))
        })
        .clone();
    assert_eq!(first, Err(ImageLoadError::Unreadable(String::from("file not found"))));
    let bytes = png(250, 250);
    let second = modpack
        .load_icon(|_: &str| {
            calls.set(calls.get() + 1);
            Ok(bytes.clone())
        })
        .clone();
    assert_eq!(second, first);
    assert_eq!(calls.get(), 1);
}

#[test]
fn icon_of_another_size_is_an_error() {
    let mut modpack = valid_modpack("foo");
    let bytes = png(256, 250);
    let result = modpack.load_icon(|_: &str| Ok(bytes.clone())).clone();
    let expected = ImageLoadError::WrongDimensions { expected_width: 250, expected_height: 250 };
    assert_eq!(result, Err(expected.clone()));
    assert_eq!(expected.message(), "Wrong image dimensions, expected 250x250");
}

#[test]
fn icon_that_is_no_picture_is_an_error() {
    let mut modpack = valid_modpack("foo");
    let result = modpack.load_icon(|_: &str| Ok(vec![1, 2, 3, 4])).clone();
    match result {
        Err(ImageLoadError::Undecodable(message)) => assert!(!message.is_empty()),
        other => panic!("unexpected result: {:?}", other),
    }
}

#[test]
fn unloading_hands_out_the_picture_and_clears_the_slot() {
    let mut modpack = valid_modpack("foo");
    assert_eq!(modpack.unload_icon(), None);
    let bytes = png(250, 250);
    let loaded = modpack.load_icon(|_: &str| Ok(bytes.clone())).clone().unwrap();
    assert_eq!(modpack.unload_icon(), Some(loaded));
    assert_eq!(modpack.icon, None);
    let calls = Cell::new(0u32);
    let _ = modpack.load_icon(|_: &str| {
        calls.set(calls.get() + 1);
        Ok(bytes.clone())
    });
    assert_eq!(calls.get(), 1);
}

#[test]
fn unloading_a_remembered_error_hands_out_nothing() {
    let mut modpack = valid_modpack("foo");
    let _ = modpack.load_icon(|_: &str| Err(String::from("gone")));
    assert_eq!(modpack.unload_icon(), None);
    assert_eq!(modpack.icon, None);
}

#[test]
fn splash_image_is_read_at_every_call() {
    let modpack = valid_modpack("foo");
    let calls = Cell::new(0u32);
    let bytes = png(1280, 720);
    for _ in 0..2 {
        let image = modpack
            .load_splash_image(|path: &str| {
                assert_eq!(path, "/mods/foo/splash.png");
                calls.set(calls.get() + 1);
                Ok(bytes.clone())
            })
            .unwrap();
        assert_eq!((image.width, image.height), (1280, 720));
        assert_eq!(image.pixels.len(), 1280 * 720 * 4);
    }
    assert_eq!(calls.get(), 2);
    assert_eq!(modpack.icon, None);
}

#[test]
fn splash_image_of_icon_size_is_an_error() {
    let modpack = valid_modpack("foo");
    let bytes = png(250, 250);
    let result = modpack.load_splash_image(|_: &str| Ok(bytes.clone()));
    let expected = ImageLoadError::WrongDimensions { expected_width: 1280, expected_height: 720 };
    assert_eq!(result, Err(expected.clone()));
    assert_eq!(expected.message(), "Wrong image dimensions, expected 1280x720");
}

#[test]
fn decoded_picture_is_flipped_vertically() {
    let image = decode_image(&png(3, 2), 3, 2).unwrap();
    assert_eq!(image.width, 3);
    assert_eq!(image.height, 2);
    let blue = [0u8, 0, 255, 255];
    let red = [255u8, 0, 0, 255];
    let mut expected = Vec::new();
    for _ in 0..3 {
        expected.extend_from_slice(&blue);
    }
    for _ in 0..3 {
        expected.extend_from_slice(&red);
    }
    assert_eq!(image.pixels, expected);
}

#[test]
fn dimensions_are_checked_exactly() {
    assert_eq!(check_dimensions(250, 250, 250, 250), Ok(()));
    assert_eq!(check_dimensions(0, 0, 0, 0), Ok(()));
    assert_eq!(
        check_dimensions(250, 251, 250, 250),
        Err(ImageLoadError::WrongDimensions { expected_width: 250, expected_height: 250 })
    );
    assert_eq!(
        check_dimensions(720, 1280, 1280, 720),
        Err(ImageLoadError::WrongDimensions { expected_width: 1280, expected_height: 720 })
    );
    assert_eq!(
        check_dimensions(500, 500, 250, 250),
        Err(ImageLoadError::WrongDimensions { expected_width: 250, expected_height: 250 })
    );
}

#[test]
fn picture_is_owed_exactly_for_a_file_of_the_expected_size() {
    let modpack = valid_modpack("foo");
    let right = png(1280, 720);
    assert!(modpack.load_splash_image(|_: &str| Ok(right.clone())).is_ok());
    for (width, height) in [(720, 1280), (1280, 721), (1, 1), (250, 250)] {
        let wrong = png(width, height);
        assert_eq!(
            modpack.load_splash_image(|_: &str| Ok(wrong.clone())),
            Err(ImageLoadError::WrongDimensions { expected_width: 1280, expected_height: 720 })
        );
    }
    let mut truncated = png(1280, 720);
    truncated.truncate(40);
    assert!(matches!(
        modpack.load_splash_image(|_: &str| Ok(truncated.clone())),
        Err(ImageLoadError::Undecodable(_))
    ));
}

#[test]
fn picture_of_another_size_is_not_decoded_to_the_expected_one() {
    assert_eq!(
        decode_image(&png(3, 2), 2, 3),
        Err(ImageLoadError::WrongDimensions { expected_width: 2, expected_height: 3 })
    );
    assert_eq!(
        decode_image(&png(3, 2), 6, 1),
        Err(ImageLoadError::WrongDimensions { expected_width: 6, expected_height: 1 })
    );
}

#[test]
fn plugin_files_have_the_nro_extension() {
    assert!(is_plugin_file("plugin.nro"));
    assert!(is_plugin_file("a.nro"));
    assert!(is_plugin_file("archive.tar.nro"));
    assert!(is_plugin_file("..nro"));
    assert!(!is_plugin_file(".nro"));
    assert!(!is_plugin_file("nro"));
    assert!(!is_plugin_file("plugin.NRO"));
    assert!(!is_plugin_file("plugin.nro.bak"));
    assert!(!is_plugin_file("plugin.nso"));
    assert!(!is_plugin_file(""));
}

fn item(name: &str, is_file: bool) -> DirectoryItem {
    DirectoryItem { name: String::from(name), is_file }
}

#[test]
fn plugins_are_registered_in_order_and_committed() {
    let modpack = valid_modpack("foo");
    assert_eq!(modpack.plugins_path(), "/mods/foo/plugins");
    let listing = Some(vec![
        item("b.nro", true),
        item("notes.txt", true),
        item("folder.nro", false),
        item("a.nro", true),
    ]);
    let seen = RefCell::new(Vec::new());
    let committed = Cell::new(0u32);
    let result = modpack.load_plugins(
        &listing,
        |path: &str| {
            seen.borrow_mut().push(String::from(path));
            true
        },
        || {
            committed.set(committed.get() + 1);
            true
        },
    );
    assert_eq!(result, Ok(2));
    assert_eq!(
        seen.borrow().as_slice(),
        [String::from("/mods/foo/plugins/b.nro"), String::from("/mods/foo/plugins/a.nro")]
    );
    assert_eq!(committed.get(), 1);
}

#[test]
fn missing_plugin_folder_is_no_error() {
    let modpack = valid_modpack("foo");
    let registered = Cell::new(0u32);
    let committed = Cell::new(0u32);
    let result = modpack.load_plugins(
        &None,
        |_: &str| {
            registered.set(registered.get() + 1);
            true
        },
        || {
            committed.set(committed.get() + 1);
            true
        },
    );
    assert_eq!(result, Ok(0));
    assert_eq!(registered.get(), 0);
    assert_eq!(committed.get(), 1);
}

#[test]
fn refused_plugin_stops_the_loading() {
    let modpack = valid_modpack("foo");
    let listing = Some(vec![item("a.nro", true), item("b.nro", true), item("c.nro", true)]);
    let seen = RefCell::new(Vec::new());
    let committed = Cell::new(0u32);
    let result = modpack.load_plugins(
        &listing,
        |path: &str| {
            seen.borrow_mut().push(String::from(path));
            !path.ends_with("b.nro")
        },
        || {
            committed.set(committed.get() + 1);
            true
        },
    );
    let expected = PluginError::RegistrationFailed(String::from("/mods/foo/plugins/b.nro"));
    assert_eq!(result, Err(expected.clone()));
    assert_eq!(expected.message(), "Failed to add plugin: /mods/foo/plugins/b.nro");
    assert_eq!(seen.borrow().len(), 2);
    assert_eq!(committed.get(), 0);
}

#[test]
fn failed_commit_is_an_error() {
    let modpack = valid_modpack("foo");
    let listing = Some(vec![item("a.nro", true)]);
    let result = modpack.load_plugins(&listing, |_: &str| true, || false);
    assert_eq!(result, Err(PluginError::CommitFailed));
    assert_eq!(PluginError::CommitFailed.message(), "Failed to load plugin modules!");
}
