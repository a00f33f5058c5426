use hyperbeam_launcher::archive::is_enclosed;
use hyperbeam_launcher::self_update::{
    check_release, decide_update, find_launcher_asset, is_launcher_asset, start_check_self_update,
    InstallAction, ProgressPercentage, Release, ReleaseAsset, Update, UpdateCheckError,
    UpdateCheckResult, UpdateError, UpdateProgress, UpdateSession, UpdaterPhase, UPDATE_BASE_PATH,
};
use hyperbeam_launcher::version::Version;
use std::io::Write;

fn asset(name: &str) -> ReleaseAsset {
    ReleaseAsset {
        name: String::from(name),
        size: 42,
        browser_download_url: format!("https://example.org/download/{}", name),
    }
}

fn release(tag: &str, assets: Vec<ReleaseAsset>) -> Release {
    Release {
        name: String::from("Release"),
        tag_name: String::from(tag),
        body: String::from("Notes"),
        assets,
    }
}

fn version(text: &str) -> Version {
    Version::parse(text).unwrap()
}

fn update() -> Update {
    Update {
        version: Version::new(2, 0, 0),
        download: String::from("https://example.org/download/libhyperbeam_launcher.nro"),
    }
}

/// A zip archive with the given entries; a name that ends in a slash is a
/// folder. The entries are stored, not compressed.
fn archive(entries: &[(&str, &[u8])]) -> Vec<u8> {
    let mut writer = zip::ZipWriter::new(std::io::Cursor::new(Vec::new()));
    let options =
        zip::write::FileOptions::default().compression_method(zip::CompressionMethod::Stored);
    for (name, content) in entries {
        if name.ends_with('/') {
            writer.add_directory(*name, options).unwrap();
        } else {
            writer.start_file(*name, options).unwrap();
            writer.write_all(content).unwrap();
        }
    }
    writer.finish().unwrap().into_inner()
}

fn compressed_archive(name: &str, content: &[u8]) -> Vec<u8> {
    let mut writer = zip::ZipWriter::new(std::io::Cursor::new(Vec::new()));
    let options =
        zip::write::FileOptions::default().compression_method(zip::CompressionMethod::Deflated);
    writer.start_file(name, options).unwrap();
    writer.write_all(content).unwrap();
    writer.finish().unwrap().into_inner()
}

fn downloaded(bytes: &[u8]) -> UpdateSession {
    let mut session = update().start_update(bytes.len() as u64);
    for byte in bytes {
        session.receive(*byte);
    }
    session
}

fn actions(session: &mut UpdateSession) -> Vec<InstallAction> {
    let mut all = Vec::new();
    while let Some(action) = session.next_action() {
        all.push(action);
    }
    all
}

#[test]
fn version_is_read_part_by_part() {
    let v = version("1.22.333-rc.1+exp.sha.5114f85");
    assert_eq!(v.major, 1);
    assert_eq!(v.minor, 22);
    assert_eq!(v.patch, 333);
    assert_eq!(v.pre, "rc.1");
    assert_eq!(v.build, "exp.sha.5114f85");
    assert_eq!(version("0.0.0"), Version::new(0, 0, 0));
}

#[test]
fn text_that_is_no_version_is_refused_with_a_message() {
    for text in ["", "1.0", "1.0.01", "1.0.unknown", "1.0.0-", "v1.0.0", "1.0.0 "] {
        match Version::parse(text) {
            Err(message) => assert!(!message.is_empty()),
            Ok(v) => panic!("{:?} was read as {:?}", text, v),
        }
    }
}

#[test]
fn version_text_is_what_was_read() {
    for text in ["1.2.3", "0.0.0", "10.20.30", "1.0.0-alpha.1", "1.0.0+build", "1.0.0-rc.1+b.7"] {
        assert_eq!(version(text).to_text(), text);
    }
    assert_eq!(Version::new(18446744073709551615, 0, 7).to_text(), "18446744073709551615.0.7");
}

#[test]
fn versions_are_ordered_as_semver_orders_them() {
    assert!(version("1.0.1").newer_than(&version("1.0.0")));
    assert!(version("1.1.0").newer_than(&version("1.0.9")));
    assert!(version("2.0.0").newer_than(&version("1.9.9")));
    assert!(version("1.10.0").newer_than(&version("1.9.0")));
    assert!(!version("1.0.0").newer_than(&version("1.0.0")));
    assert!(!version("1.0.0").newer_than(&version("1.0.1")));
    assert!(version("1.0.0").newer_than(&version("1.0.0-alpha")));
    assert!(!version("1.0.0-alpha").newer_than(&version("1.0.0")));
    assert!(version("1.0.0-alpha.1").newer_than(&version("1.0.0-alpha")));
    assert!(version("1.0.0-beta.11").newer_than(&version("1.0.0-beta.2")));
    assert!(version("1.0.0-rc.1").newer_than(&version("1.0.0-beta.11")));
    assert!(version("1.0.1-alpha").newer_than(&version("1.0.0")));
}

#[test]
fn launcher_asset_is_told_by_prefix_and_suffix() {
    assert!(is_launcher_asset("libhyperbeam_launcher.nro"));
    assert!(is_launcher_asset("libhyperbeam_launcher-1.2.3.nro"));
    assert!(!is_launcher_asset("libhyperbeam_launcher.zip"));
    assert!(!is_launcher_asset("hyperbeam_launcher.nro"));
    assert!(!is_launcher_asset("xlibhyperbeam_launcher.nro"));
    assert!(!is_launcher_asset("libhyperbeam_launcher.nro.sig"));
    assert!(!is_launcher_asset(".nro"));
    assert!(!is_launcher_asset(""));
}

#[test]
fn first_matching_asset_is_found() {
    let assets = vec![
        asset("source.zip"),
        asset("libhyperbeam_launcher-a.nro"),
        asset("libhyperbeam_launcher-b.nro"),
    ];
    assert_eq!(find_launcher_asset(&assets), Some(1));
    assert_eq!(find_launcher_asset(&vec![asset("source.zip")]), None);
    assert_eq!(find_launcher_asset(&Vec::new()), None);
}

#[test]
fn newer_release_with_asset_is_an_update() {
    let found = release("1.3.0", vec![asset("notes.txt"), asset("libhyperbeam_launcher.nro")]);
    let result = check_release(&found, &version("1.2.9"));
    assert_eq!(
        result,
        Ok(UpdateCheckResult::UpdateAvailable(Update {
            version: Version::new(1, 3, 0),
            download: String::from("https://example.org/download/libhyperbeam_launcher.nro"),
        }))
    );
}

#[test]
fn release_that_is_not_newer_is_no_update() {
    let same = release("1.2.9", vec![asset("libhyperbeam_launcher.nro")]);
    assert_eq!(check_release(&same, &version("1.2.9")), Ok(UpdateCheckResult::NoUpdate));
    let older = release("1.2.8", Vec::new());
    assert_eq!(check_release(&older, &version("1.2.9")), Ok(UpdateCheckResult::NoUpdate));
}

#[test]
fn newer_release_without_asset_is_an_error() {
    let found = release("2.0.0", vec![asset("source.zip"), asset("libhyperbeam_essentials.nro")]);
    let result = check_release(&found, &version("1.2.9"));
    assert_eq!(result, Err(UpdateCheckError::NoReleaseAsset));
    assert_eq!(result.unwrap_err().message(), "No release asset found");
    let empty = release("2.0.0", Vec::new());
    assert_eq!(check_release(&empty, &version("1.2.9")), Err(UpdateCheckError::NoReleaseAsset));
}

#[test]
fn tag_that_is_no_version_is_an_error() {
    let found = release("latest", vec![asset("libhyperbeam_launcher.nro")]);
    match check_release(&found, &version("1.0.0")) {
        Err(UpdateCheckError::InvalidTag(message)) => assert!(!message.is_empty()),
        other => panic!("unexpected result: {:?}", other),
    }
}

#[test]
fn release_that_could_not_be_fetched_is_an_error() {
    let result = start_check_self_update(&Err(String::from("timed out")), &version("1.0.0"));
    assert_eq!(result, Err(UpdateCheckError::Fetch(String::from("timed out"))));
    assert_eq!(result.unwrap_err().message(), "timed out");
}

#[test]
fn fetched_release_is_checked() {
    let fetched = Ok(release("1.0.1", vec![asset("libhyperbeam_launcher.nro")]));
    match start_check_self_update(&fetched, &version("1.0.0")) {
        Ok(UpdateCheckResult::UpdateAvailable(update)) => {
            assert_eq!(update.version, Version::new(1, 0, 1))
        }
        other => panic!("unexpected result: {:?}", other),
    }
    let current = Ok(release("1.0.0", vec![asset("libhyperbeam_launcher.nro")]));
    assert_eq!(
        start_check_self_update(&current, &version("1.0.0")),
        Ok(UpdateCheckResult::NoUpdate)
    );
}

#[test]
fn decision_follows_the_comparison() {
    let assets = vec![asset("libhyperbeam_launcher.nro")];
    assert_eq!(
        decide_update(false, Version::new(9, 9, 9), &assets),
        Ok(UpdateCheckResult::NoUpdate)
    );
    assert_eq!(
        decide_update(false, Version::new(9, 9, 9), &Vec::new()),
        Ok(UpdateCheckResult::NoUpdate)
    );
    assert_eq!(
        decide_update(true, Version::new(0, 0, 1), &Vec::new()),
        Err(UpdateCheckError::NoReleaseAsset)
    );
    assert_eq!(
        decide_update(true, Version::new(0, 0, 1), &assets),
        Ok(UpdateCheckResult::UpdateAvailable(Update {
            version: Version::new(0, 0, 1),
            download: String::from("https://example.org/download/libhyperbeam_launcher.nro"),
        }))
    );
}

#[test]
fn percent_is_rounded_down() {
    assert_eq!(ProgressPercentage { received: 0, total: 0 }.percent(), 0);
    assert_eq!(ProgressPercentage { received: 5, total: 0 }.percent(), 0);
    assert_eq!(ProgressPercentage { received: 0, total: 10 }.percent(), 0);
    assert_eq!(ProgressPercentage { received: 1, total: 3 }.percent(), 33);
    assert_eq!(ProgressPercentage { received: 2, total: 3 }.percent(), 66);
    assert_eq!(ProgressPercentage { received: 999, total: 1000 }.percent(), 99);
    assert_eq!(ProgressPercentage { received: 10, total: 10 }.percent(), 100);
    assert_eq!(ProgressPercentage { received: 11, total: 10 }.percent(), 100);
    assert_eq!(
        ProgressPercentage { received: u64::MAX - 1, total: u64::MAX }.percent(),
        99
    );
}

#[test]
fn progress_is_reported_after_every_1024th_byte() {
    let mut session = update().start_update(4096);
    assert_eq!(session.phase, UpdaterPhase::Downloading);
    for i in 1..=4096u64 {
        let report = session.receive(7);
        if i % 1024 == 0 {
            assert_eq!(
                report,
                Some(UpdateProgress::Downloading(ProgressPercentage { received: i, total: 4096 }))
            );
        } else {
            assert_eq!(report, None);
        }
    }
    assert_eq!(session.bytes.len(), 4096);
}

#[test]
fn progress_of_a_download_of_unknown_size_is_zero() {
    let mut session = update().start_update(0);
    let mut reports = Vec::new();
    for _ in 0..2048 {
        if let Some(report) = session.receive(0) {
            reports.push(report);
        }
    }
    let zero = UpdateProgress::Downloading(ProgressPercentage { received: 0, total: 0 });
    assert_eq!(reports, vec![zero.clone(), zero]);
}

#[test]
fn progress_never_exceeds_the_expected_size() {
    let mut session = update().start_update(1500);
    let mut reports = Vec::new();
    for _ in 0..3072 {
        if let Some(UpdateProgress::Downloading(progress)) = session.receive(0) {
            reports.push(progress);
        }
    }
    assert_eq!(
        reports,
        vec![
            ProgressPercentage { received: 1024, total: 1500 },
            ProgressPercentage { received: 1500, total: 1500 },
            ProgressPercentage { received: 1500, total: 1500 },
        ]
    );
}

#[test]
fn download_of_a_million_bytes_reports_rising_fractions_and_finishes() {
    let overhead = archive(&[("libhyperbeam_launcher.nro", &[])]).len();
    let content = vec![0xABu8; 1_000_000 - overhead];
    let package = archive(&[("libhyperbeam_launcher.nro", &content)]);
    assert_eq!(package.len(), 1_000_000);

    let mut session = update().start_update(1_000_000);
    let mut fractions = Vec::new();
    for byte in &package {
        match session.receive(*byte) {
            Some(UpdateProgress::Downloading(progress)) => fractions.push(progress),
            Some(other) => panic!("unexpected report: {:?}", other),
            None => {}
        }
    }
    assert_eq!(fractions.len(), 1_000_000 / 1024);
    let mut last = 0.0f64;
    for progress in &fractions {
        assert_eq!(progress.total, 1_000_000);
        let fraction = progress.received as f64 / progress.total as f64;
        assert!(fraction >= 0.0 && fraction <= 1.0);
        assert!(fraction >= last);
        last = fraction;
    }
    assert_eq!(fractions[0].received, 1024);
    assert_eq!(fractions.last().unwrap().received, 976 * 1024);

    assert_eq!(session.bytes.len(), 1_000_000);
    assert_eq!(session.download_complete(), Some(UpdateProgress::Installing));
    assert_eq!(session.phase, UpdaterPhase::Installing);
    assert!(session.bytes.is_empty());
    let steps = actions(&mut session);
    assert_eq!(steps.len(), 2);
    assert_eq!(
        steps[0],
        InstallAction::WriteFile(format!("{}/libhyperbeam_launcher.nro", UPDATE_BASE_PATH), content)
    );
    assert_eq!(steps[1], InstallAction::Finished);
    assert_eq!(steps[1].report(), Some(UpdateProgress::Finished));
    assert_eq!(session.phase, UpdaterPhase::Finished);
}

/// Runs a whole update on `package`, with every write succeeding unless it
/// is the one numbered `failing`, and hands out what was reported, in order.
fn run(package: &[u8], failing: Option<usize>) -> Vec<UpdateProgress> {
    let mut events = Vec::new();
    let mut session = update().start_update(package.len() as u64);
    for byte in package {
        events.extend(session.receive(*byte));
    }
    events.extend(session.download_complete());
    let mut written = 0;
    while let Some(action) = session.next_action() {
        if matches!(action, InstallAction::CreateDir(_) | InstallAction::WriteFile(_, _)) {
            if failing == Some(written) {
                events.extend(session.action_failed(String::from("disk full")));
            }
            written += 1;
        }
        events.extend(action.report());
    }
    events
}

#[test]
fn events_of_a_whole_update_come_in_order() {
    let content = vec![7u8; 5000];
    let package = archive(&[("a/", &[]), ("a/b.bin", &content), ("../out", b"x"), ("c", b"c")]);
    let events = run(&package, None);
    let downloads = package.len() / 1024;
    assert!(downloads >= 4);
    assert_eq!(events.len(), downloads + 2);
    for event in &events[..downloads] {
        assert!(matches!(event, UpdateProgress::Downloading(_)));
    }
    assert_eq!(events[downloads], UpdateProgress::Installing);
    assert_eq!(events[downloads + 1], UpdateProgress::Finished);
}

#[test]
fn events_of_a_failed_update_end_with_the_one_failure() {
    let package = archive(&[("a.txt", b"a"), ("b.txt", b"b"), ("c.txt", b"c")]);
    let events = run(&package, Some(1));
    assert_eq!(
        events,
        vec![
            UpdateProgress::Installing,
            UpdateProgress::Failed(UpdateError::Install(String::from("disk full"))),
        ]
    );
    let broken = run(b"no archive at all", None);
    assert_eq!(broken.len(), 1);
    assert!(matches!(&broken[0], UpdateProgress::Failed(UpdateError::Archive(_))));
}

#[test]
fn entries_are_unpacked_below_the_install_folder() {
    let package = archive(&[
        ("hyperbeam/", &[]),
        ("hyperbeam/data/launcher_ui.ab", b"bundle"),
        ("readme.txt", b"hello"),
    ]);
    let mut session = downloaded(&package);
    assert_eq!(session.download_complete(), Some(UpdateProgress::Installing));
    assert_eq!(
        actions(&mut session),
        vec![
            InstallAction::CreateDir(format!("{}/hyperbeam/", UPDATE_BASE_PATH)),
            InstallAction::WriteFile(
                format!("{}/hyperbeam/data/launcher_ui.ab", UPDATE_BASE_PATH),
                b"bundle".to_vec()
            ),
            InstallAction::WriteFile(format!("{}/readme.txt", UPDATE_BASE_PATH), b"hello".to_vec()),
            InstallAction::Finished,
        ]
    );
    assert_eq!(session.next_action(), None);
    assert_eq!(UPDATE_BASE_PATH, "sd:/atmosphere/contents/01003D200BAA2000/romfs");
}

#[test]
fn compressed_entry_is_unpacked_to_its_content() {
    let content: Vec<u8> = (0..20000u32).map(|i| (i % 7) as u8).collect();
    let package = compressed_archive("data.bin", &content);
    assert!(package.len() < content.len());
    let mut session = downloaded(&package);
    session.download_complete();
    assert_eq!(
        actions(&mut session),
        vec![
            InstallAction::WriteFile(format!("{}/data.bin", UPDATE_BASE_PATH), content),
            InstallAction::Finished,
        ]
    );
}

#[test]
fn entry_that_leads_out_of_the_install_folder_is_passed_over() {
    let package = archive(&[
        ("../../etc/passwd", b"root"),
        ("/etc/shadow", b"root"),
        ("a/../../b", b"x"),
        ("a/../b", b"fine"),
    ]);
    let mut session = downloaded(&package);
    session.download_complete();
    let steps = actions(&mut session);
    assert_eq!(
        steps,
        vec![
            InstallAction::Skip,
            InstallAction::Skip,
            InstallAction::Skip,
            InstallAction::WriteFile(format!("{}/a/../b", UPDATE_BASE_PATH), b"fine".to_vec()),
            InstallAction::Finished,
        ]
    );
    for step in &steps {
        match step {
            InstallAction::CreateDir(path) | InstallAction::WriteFile(path, _) => {
                assert!(path.starts_with(UPDATE_BASE_PATH));
                assert!(!path.contains("passwd"));
            }
            _ => {}
        }
    }
    assert_eq!(session.phase, UpdaterPhase::Finished);
}

#[test]
fn enclosed_names_stay_within_the_folder() {
    for name in [
        "a",
        "a/b",
        "a/b/",
        "a/../b",
        "./a",
        "a/./b",
        "a//b",
        "..a/b",
        "a/..",
        "",
        "...",
        "a/b/../../c",
        "a\\..\\..\\b",
        "C:\\a",
    ] {
        assert!(is_enclosed(name), "{:?}", name);
    }
    for name in [
        "..",
        "../a",
        "../../etc/passwd",
        "a/../..",
        "a/../../b",
        "/a",
        "/",
        "a\0b",
        "./..",
        "a/b/../../../c",
        "..//a",
    ] {
        assert!(!is_enclosed(name), "{:?}", name);
    }
}

#[test]
fn bytes_that_are_no_archive_fail_the_update() {
    let mut session = downloaded(b"this is no zip archive");
    match session.download_complete() {
        Some(UpdateProgress::Failed(UpdateError::Archive(message))) => {
            assert!(!message.is_empty())
        }
        other => panic!("unexpected report: {:?}", other),
    }
    assert_eq!(session.phase, UpdaterPhase::Failed);
    assert!(session.bytes.is_empty());
    assert_eq!(session.next_action(), None);
}

#[test]
fn entry_with_damaged_content_fails_the_update_after_what_came_before() {
    let mut package = archive(&[("first.txt", b"first"), ("second.txt", b"second content")]);
    let at = package.windows(14).position(|w| w == b"second content").unwrap();
    package[at] ^= 0xFF;
    let mut session = downloaded(&package);
    assert_eq!(session.download_complete(), Some(UpdateProgress::Installing));
    assert_eq!(
        session.next_action(),
        Some(InstallAction::WriteFile(format!("{}/first.txt", UPDATE_BASE_PATH), b"first".to_vec()))
    );
    match session.next_action() {
        Some(InstallAction::Failed(UpdateError::Archive(message))) => {
            assert!(!message.is_empty())
        }
        other => panic!("unexpected action: {:?}", other),
    }
    assert_eq!(session.phase, UpdaterPhase::Failed);
    assert_eq!(session.next_action(), None);
}

#[test]
fn failed_download_fails_the_update() {
    let mut session = update().start_update(100);
    session.receive(1);
    assert_eq!(
        session.download_failed(String::from("connection reset")),
        Some(UpdateProgress::Failed(UpdateError::Download(String::from("connection reset"))))
    );
    assert_eq!(session.phase, UpdaterPhase::Failed);
    assert_eq!(session.receive(2), None);
    assert_eq!(session.bytes, vec![1]);
    assert_eq!(session.download_complete(), None);
    assert_eq!(session.download_failed(String::from("again")), None);
}

#[test]
fn failed_write_fails_the_update_and_stops_it() {
    let package = archive(&[("a.txt", b"a"), ("b.txt", b"b")]);
    let mut session = downloaded(&package);
    assert_eq!(session.action_failed(String::from("too early")), None);
    session.download_complete();
    assert!(matches!(session.next_action(), Some(InstallAction::WriteFile(_, _))));
    let report = session.action_failed(String::from("disk full"));
    assert_eq!(
        report,
        Some(UpdateProgress::Failed(UpdateError::Install(String::from("disk full"))))
    );
    assert_eq!(UpdateError::Install(String::from("disk full")).message(), "disk full");
    assert_eq!(session.phase, UpdaterPhase::Failed);
    assert_eq!(session.next_action(), None);
}

#[test]
fn only_the_end_of_an_update_is_reported() {
    assert_eq!(InstallAction::Skip.report(), None);
    assert_eq!(InstallAction::CreateDir(String::from("a")).report(), None);
    assert_eq!(InstallAction::WriteFile(String::from("a"), Vec::new()).report(), None);
    assert_eq!(InstallAction::Finished.report(), Some(UpdateProgress::Finished));
    assert_eq!(
        InstallAction::Failed(UpdateError::Archive(String::from("bad"))).report(),
        Some(UpdateProgress::Failed(UpdateError::Archive(String::from("bad"))))
    );
}
