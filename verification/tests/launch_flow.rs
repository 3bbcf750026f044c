use femboylose::error::LauncherError;
use femboylose::launch::sanitize_path_segment;
use femboylose::launch::{
    backup_file_name, background_processes, download_and_launch_version, game_folder_name,
    injector_headless_choice, is_leftover_backup, is_refused_tag, release_url_for,
    releases_url_string, server_arguments, LaunchAction, LaunchEvent, LaunchFlow, LaunchStage,
};
use femboylose::release::{GithubAsset, GithubRelease};

const DIR: &str = "D:/neverlose/bin/1.2.0";

fn s(x: &str) -> String {
    x.to_string()
}

fn asset(name: &str) -> GithubAsset {
    GithubAsset {
        name: s(name),
        browser_download_url: format!("https://dl.invalid/{name}"),
        size: 1,
    }
}

fn release(names: &[&str]) -> GithubRelease {
    GithubRelease {
        tag_name: s("1.2.0"),
        name: None,
        body: None,
        prerelease: false,
        draft: false,
        published_at: None,
        updated_at: s("now"),
        html_url: s("https://example.invalid"),
        assets: names.iter().map(|n| asset(n)).collect(),
    }
}

fn started(tag: &str, config: Option<i32>, appid: i32, auto: bool) -> (LaunchFlow, LaunchAction) {
    download_and_launch_version(s(tag), config, appid, auto)
}

#[test]
fn full_run_with_checksums() {
    let (mut f, a) = started("1.2.0", Some(5), 730, true);
    assert_eq!(
        a,
        LaunchAction::FetchRelease {
            url: s("https://api.github.com/repos/luvettee/FemboyLose/releases/tags/1.2.0")
        }
    );
    let rel = release(&["neverlose.dll", "neverlose-server.exe", "Injector.EXE", "sha256sums.txt"]);
    assert_eq!(f.step(LaunchEvent::ReleaseFetched(rel)), LaunchAction::PrepareInstallDir { tag: s("1.2.0") });
    assert_eq!(
        f.step(LaunchEvent::InstallDirReady(s(DIR))),
        LaunchAction::FetchChecksums { url: s("https://dl.invalid/sha256sums.txt") }
    );
    assert_eq!(
        f.step(LaunchEvent::ChecksumsFetched(Some(s("AA neverlose.dll\nbb *neverlose-server.exe\n")))),
        LaunchAction::HashExisting { dir: s(DIR), file: s("neverlose.dll") }
    );
    // The installed dll matches: it is kept.
    assert_eq!(
        f.step(LaunchEvent::ExistingHashed(Some(s("aa")))),
        LaunchAction::HashExisting { dir: s(DIR), file: s("neverlose-server.exe") }
    );
    assert_eq!(
        f.step(LaunchEvent::ExistingHashed(None)),
        LaunchAction::Download {
            url: s("https://dl.invalid/neverlose-server.exe"),
            dir: s(DIR),
            file: s("neverlose-server.exe.download"),
        }
    );
    assert_eq!(
        f.step(LaunchEvent::Downloaded),
        LaunchAction::HashFile { dir: s(DIR), file: s("neverlose-server.exe.download") }
    );
    assert_eq!(
        f.step(LaunchEvent::DownloadHashed(s("BB"))),
        LaunchAction::ClearTarget { dir: s(DIR), file: s("neverlose-server.exe") }
    );
    assert_eq!(
        f.step(LaunchEvent::TargetLocked { now_secs: 1700000000 }),
        LaunchAction::MoveAside {
            dir: s(DIR),
            file: s("neverlose-server.exe"),
            backup: s("neverlose-server.exe.1700000000.old"),
        }
    );
    assert_eq!(
        f.step(LaunchEvent::Completed),
        LaunchAction::MoveIntoPlace {
            dir: s(DIR),
            from: s("neverlose-server.exe.download"),
            to: s("neverlose-server.exe"),
        }
    );
    // The injector has no checksum: downloaded without a check.
    assert_eq!(
        f.step(LaunchEvent::Completed),
        LaunchAction::Download {
            url: s("https://dl.invalid/Injector.EXE"),
            dir: s(DIR),
            file: s("injector.exe.download"),
        }
    );
    assert_eq!(
        f.step(LaunchEvent::Downloaded),
        LaunchAction::ClearTarget { dir: s(DIR), file: s("injector.exe") }
    );
    assert_eq!(
        f.step(LaunchEvent::TargetCleared),
        LaunchAction::MoveIntoPlace {
            dir: s(DIR),
            from: s("injector.exe.download"),
            to: s("injector.exe"),
        }
    );
    assert_eq!(
        f.step(LaunchEvent::Completed),
        LaunchAction::LocateGame { folder: s("Counter-Strike Global Offensive") }
    );
    assert_eq!(
        f.step(LaunchEvent::GameLocated(Some(s("G:/cs")))),
        LaunchAction::PrepareCloudDir { dir: Some(vec![s("G:/cs"), s("nl_cloud")]) }
    );
    assert_eq!(
        f.step(LaunchEvent::CloudDirReady(s("G:/cs/nl_cloud"))),
        LaunchAction::SpawnServer {
            dir: s(DIR),
            exe: s("neverlose-server.exe"),
            cloud_dir: s("G:/cs/nl_cloud"),
            args: vec![s("--boot-config"), s("5")],
        }
    );
    assert_eq!(
        f.step(LaunchEvent::Completed),
        LaunchAction::SpawnInjector {
            dir: s(DIR),
            exe: s("injector.exe"),
            headless: s("2"),
            game_dir: Some(s("G:/cs")),
        }
    );
    assert_eq!(f.step(LaunchEvent::Completed), LaunchAction::Finish(Ok(())));
    assert_eq!(f.stage(), LaunchStage::Finished);
    assert_eq!(f.step(LaunchEvent::Downloaded), LaunchAction::Finish(Ok(())));
}

#[test]
fn refused_tags_end_at_once() {
    for tag in ["", "   ", "\t\n", "Unavailable"] {
        let (f, a) = started(tag, None, 730, true);
        assert_eq!(
            a,
            LaunchAction::Finish(Err(LauncherError::Validation(s("no release version is selected"))))
        );
        assert_eq!(f.stage(), LaunchStage::Finished);
    }
    let (f, _) = started("unavailable", None, 730, true);
    assert_eq!(f.stage(), LaunchStage::FetchingRelease);
}

fn ready_without_sums(names: &[&str]) -> LaunchFlow {
    let (mut f, _) = started("1.2.0", None, 10, false);
    f.step(LaunchEvent::ReleaseFetched(release(names)));
    f
}

#[test]
fn release_without_checksums_downloads_directly() {
    let mut f = ready_without_sums(&["neverlose.dll", "neverlose-server.exe", "injector.exe"]);
    assert_eq!(
        f.step(LaunchEvent::InstallDirReady(s(DIR))),
        LaunchAction::Download {
            url: s("https://dl.invalid/neverlose.dll"),
            dir: s(DIR),
            file: s("neverlose.dll.download"),
        }
    );
}

#[test]
fn missing_asset_fails_with_release_tag() {
    let mut f = ready_without_sums(&["neverlose-server.exe"]);
    assert_eq!(
        f.step(LaunchEvent::InstallDirReady(s(DIR))),
        LaunchAction::Finish(Err(LauncherError::Validation(s("release 1.2.0 is missing neverlose.dll"))))
    );
}

#[test]
fn checksum_mismatch_discards_download() {
    let (mut f, _) = started("1.2.0", None, 730, true);
    f.step(LaunchEvent::ReleaseFetched(release(&["neverlose.dll", "SHA256SUMS.txt"])));
    f.step(LaunchEvent::InstallDirReady(s(DIR)));
    f.step(LaunchEvent::ChecksumsFetched(Some(s("aa neverlose.dll"))));
    assert_eq!(
        f.step(LaunchEvent::ExistingHashed(Some(s("ab")))),
        LaunchAction::Download {
            url: s("https://dl.invalid/neverlose.dll"),
            dir: s(DIR),
            file: s("neverlose.dll.download"),
        }
    );
    f.step(LaunchEvent::Downloaded);
    assert_eq!(
        f.step(LaunchEvent::DownloadHashed(s("cc"))),
        LaunchAction::RemoveFile { dir: s(DIR), file: s("neverlose.dll.download") }
    );
    // Whatever the removal reports, the checksum error ends the flow.
    assert_eq!(
        f.step(LaunchEvent::Failed(LauncherError::Io(s("busy")))),
        LaunchAction::Finish(Err(LauncherError::Validation(s(
            "checksum validation failed for downloaded neverlose.dll (expected aa, got cc)"
        ))))
    );
}

#[test]
fn unfetchable_checksums_mean_no_checks() {
    let (mut f, _) = started("1.2.0", None, 730, true);
    f.step(LaunchEvent::ReleaseFetched(release(&["neverlose.dll", "SHA256SUMS.txt"])));
    f.step(LaunchEvent::InstallDirReady(s(DIR)));
    assert_eq!(
        f.step(LaunchEvent::ChecksumsFetched(None)),
        LaunchAction::Download {
            url: s("https://dl.invalid/neverlose.dll"),
            dir: s(DIR),
            file: s("neverlose.dll.download"),
        }
    );
}

#[test]
fn failures_end_the_flow() {
    let (mut f, _) = started("1.2.0", None, 730, true);
    let e = LauncherError::Reqwest(s("HTTP status client error (404 Not Found)"));
    assert_eq!(
        f.step(LaunchEvent::Failed(LauncherError::Reqwest(s("HTTP status client error (404 Not Found)")))),
        LaunchAction::Finish(Err(e))
    );
    assert_eq!(f.stage(), LaunchStage::Finished);
}

#[test]
fn out_of_order_report_is_an_error() {
    let (mut f, _) = started("1.2.0", None, 730, true);
    assert_eq!(
        f.step(LaunchEvent::Completed),
        LaunchAction::Finish(Err(LauncherError::System(s("launch step reported out of order"))))
    );
}

#[test]
fn cloud_dir_without_game_folder() {
    let (mut f, _) = started("1.2.0", None, 10, false);
    f.step(LaunchEvent::ReleaseFetched(release(&["neverlose.dll", "neverlose-server.exe", "injector.exe"])));
    f.step(LaunchEvent::InstallDirReady(s(DIR)));
    for _ in 0..3 {
        f.step(LaunchEvent::Downloaded);
        f.step(LaunchEvent::TargetCleared);
        f.step(LaunchEvent::Completed);
    }
    assert_eq!(f.step(LaunchEvent::GameLocated(None)), LaunchAction::PrepareCloudDir { dir: None });
    assert_eq!(
        f.step(LaunchEvent::Failed(LauncherError::Io(s("failed to create X: denied")))),
        LaunchAction::Finish(Err(LauncherError::Io(s("failed to create X: denied"))))
    );
}

#[test]
fn standalone_and_manual_modes() {
    assert_eq!(game_folder_name(730), "Counter-Strike Global Offensive");
    assert_eq!(game_folder_name(4465480), "csgo legacy");
    assert_eq!(injector_headless_choice(730, true), 2);
    assert_eq!(injector_headless_choice(4465480, true), 1);
    assert_eq!(injector_headless_choice(730, false), 3);
    assert_eq!(server_arguments(None), Vec::<String>::new());
    assert_eq!(server_arguments(Some(-3)), vec![s("--boot-config"), s("-3")]);
}

#[test]
fn names_and_addresses() {
    assert_eq!(backup_file_name("injector.exe", 0), "injector.exe.0.old");
    assert_eq!(release_url_for("v1.0"), "https://api.github.com/repos/luvettee/FemboyLose/releases/tags/v1.0");
    assert_eq!(releases_url_string(), "https://api.github.com/repos/luvettee/FemboyLose/releases");
    assert!(is_refused_tag(" "));
    assert!(!is_refused_tag(" 1.0 "));
    assert!(is_leftover_backup(true, Some("old")));
    assert!(!is_leftover_backup(false, Some("old")));
    assert!(!is_leftover_backup(true, Some("OLD")));
    assert!(!is_leftover_backup(true, None));
    let procs = background_processes();
    assert_eq!(procs[0].image, "injector.exe");
    assert_eq!(procs[1].description, "neverlose server");
}

#[test]
fn install_folder_names() {
    assert_eq!(sanitize_path_segment("1.2.0"), "1.2.0");
    assert_eq!(sanitize_path_segment("v1/../x"), "v1_.._x");
    assert_eq!(sanitize_path_segment("a<b>c:d\"e\\f|g?h*i"), "a_b_c_d_e_f_g_h_i");
    assert_eq!(sanitize_path_segment("tab\there\u{85}"), "tab_here_");
    assert_eq!(sanitize_path_segment("."), "_");
    assert_eq!(sanitize_path_segment(".."), "_");
    assert_eq!(sanitize_path_segment("..."), "...");
    assert_eq!(sanitize_path_segment(""), "");
}

#[test]
fn second_run_skips_files_installed_with_matching_hash() {
    let sums = "aa neverlose.dll\nbb neverlose-server.exe\ncc injector.exe\n";
    let names = ["neverlose.dll", "neverlose-server.exe", "injector.exe", "SHA256SUMS.txt"];
    let (mut f, _) = started("1.2.0", None, 730, true);
    f.step(LaunchEvent::ReleaseFetched(release(&names)));
    f.step(LaunchEvent::InstallDirReady(s(DIR)));
    let mut a = f.step(LaunchEvent::ChecksumsFetched(Some(s(sums))));
    for file in ["neverlose.dll", "neverlose-server.exe", "injector.exe"] {
        assert_eq!(a, LaunchAction::HashExisting { dir: s(DIR), file: s(file) });
        let hash = match file {
            "neverlose.dll" => "AA",
            "neverlose-server.exe" => "bb",
            _ => "cc",
        };
        a = f.step(LaunchEvent::ExistingHashed(Some(s(hash))));
        assert!(!matches!(a, LaunchAction::Download { .. }));
    }
    assert_eq!(a, LaunchAction::LocateGame { folder: s("Counter-Strike Global Offensive") });
}

#[test]
fn existing_copy_with_other_hash_is_downloaded_again() {
    let (mut f, _) = started("1.2.0", None, 730, false);
    f.step(LaunchEvent::ReleaseFetched(release(&["neverlose.dll", "SHA256SUMS.txt"])));
    f.step(LaunchEvent::InstallDirReady(s(DIR)));
    assert_eq!(
        f.step(LaunchEvent::ChecksumsFetched(Some(s("ABCD neverlose.dll\n")))),
        LaunchAction::HashExisting { dir: s(DIR), file: s("neverlose.dll") }
    );
    assert_eq!(
        f.step(LaunchEvent::ExistingHashed(Some(s("abce")))),
        LaunchAction::Download {
            url: s("https://dl.invalid/neverlose.dll"),
            dir: s(DIR),
            file: s("neverlose.dll.download"),
        }
    );
}
