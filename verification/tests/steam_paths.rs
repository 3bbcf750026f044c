use femboylose::steam::{
    begin_game_search, check_for_csgo, detect_installed_games, find_game_install_path,
    get_steam_install_path, restart_csgo, steam_install_dir, steam_launch_url, SearchAction,
    SearchEvent, SearchStage,
};
use femboylose::error::LauncherError;

fn s(x: &str) -> String {
    x.to_string()
}

#[test]
fn registry_values_in_order() {
    assert_eq!(get_steam_install_path(Some(s("c:/a")), Some(s("c:/b")), Some(s("c:/c"))), Some(s("c:/a")));
    assert_eq!(get_steam_install_path(None, Some(s("c:/b")), Some(s("c:/c"))), Some(s("c:/b")));
    assert_eq!(get_steam_install_path(None, None, Some(s("c:/c"))), Some(s("c:/c")));
    assert_eq!(get_steam_install_path(None, None, None), None);
}

#[test]
fn steam_dir_needs_steam_exe() {
    assert_eq!(steam_install_dir(Some(s("c:/steam")), true), Some(s("c:/steam")));
    assert_eq!(steam_install_dir(Some(s("c:/steam")), false), None);
    assert_eq!(steam_install_dir(None, true), None);
}

const VDF: &str = r#""libraryfolders" { "0" { "path" "lib1" } "1" { "path" "lib2" } }"#;

/// Runs a search against a pretend machine; returns the actions asked for.
fn search(
    game: &str,
    cwd: Option<&str>,
    steam: Option<&str>,
    vdf: Option<&str>,
    present: &[Vec<String>],
) -> Vec<SearchAction> {
    let (mut st, mut action) = begin_game_search(game);
    let mut log = Vec::new();
    loop {
        let event = match &action {
            SearchAction::ReadCurrentDir => SearchEvent::CurrentDir(cwd.map(s)),
            SearchAction::ReadSteamPath => SearchEvent::SteamPath(steam.map(s)),
            SearchAction::ReadLibraryFolders { .. } => SearchEvent::LibraryFolders(vdf.map(s)),
            SearchAction::CheckForGame { dir } => SearchEvent::GamePresent(present.contains(dir)),
            SearchAction::Finish(_) => {
                log.push(action);
                return log;
            }
        };
        log.push(action);
        action = find_game_install_path(&mut st, event);
    }
}

fn under(lib: &str, name: &str) -> Vec<String> {
    vec![s(lib), s("steamapps"), s("common"), s(name)]
}

#[test]
fn current_dir_hit_stops_at_once() {
    for game in ["Counter-Strike Global Offensive", "csgo legacy"] {
        let log = search(game, Some("cwd"), Some("steam"), Some(VDF), &[vec![s("cwd")]]);
        assert_eq!(
            log,
            vec![
                SearchAction::ReadCurrentDir,
                SearchAction::CheckForGame { dir: vec![s("cwd")] },
                SearchAction::Finish(Some(vec![s("cwd")])),
            ]
        );
    }
}

#[test]
fn legacy_branch_search_order() {
    let g = "Counter-Strike Global Offensive";
    let alt = "Counter-Strike Global Offensive 730";
    let log = search(g, Some("cwd"), Some("steam"), Some(VDF), &[under("lib2", alt)]);
    assert_eq!(
        log,
        vec![
            SearchAction::ReadCurrentDir,
            SearchAction::CheckForGame { dir: vec![s("cwd")] },
            SearchAction::ReadSteamPath,
            SearchAction::CheckForGame { dir: under("steam", g) },
            SearchAction::ReadLibraryFolders { steam: s("steam") },
            SearchAction::CheckForGame { dir: under("lib1", g) },
            SearchAction::CheckForGame { dir: under("lib2", g) },
            SearchAction::CheckForGame { dir: under("steam", alt) },
            SearchAction::ReadLibraryFolders { steam: s("steam") },
            SearchAction::CheckForGame { dir: under("lib1", alt) },
            SearchAction::CheckForGame { dir: under("lib2", alt) },
            SearchAction::Finish(Some(under("lib2", alt))),
        ]
    );
}

#[test]
fn standalone_not_found_and_without_steam() {
    let log = search("csgo legacy", None, Some("steam"), None, &[]);
    assert_eq!(
        log,
        vec![
            SearchAction::ReadCurrentDir,
            SearchAction::ReadSteamPath,
            SearchAction::CheckForGame { dir: under("steam", "csgo legacy") },
            SearchAction::ReadLibraryFolders { steam: s("steam") },
            SearchAction::Finish(None),
        ]
    );
    let log = search("csgo legacy", Some("cwd"), None, Some(VDF), &[under("lib1", "csgo legacy")]);
    assert_eq!(log.last(), Some(&SearchAction::Finish(None)));
    assert_eq!(log.len(), 4);
}

#[test]
fn steam_folder_hit() {
    let log = search("csgo legacy", None, Some("steam"), Some(VDF), &[under("steam", "csgo legacy")]);
    assert_eq!(log.last(), Some(&SearchAction::Finish(Some(under("steam", "csgo legacy")))));
}

#[test]
fn finished_search_repeats_result() {
    let (mut st, _) = begin_game_search("csgo legacy");
    find_game_install_path(&mut st, SearchEvent::CurrentDir(Some(s("here"))));
    let a = find_game_install_path(&mut st, SearchEvent::GamePresent(true));
    assert_eq!(a, SearchAction::Finish(Some(vec![s("here")])));
    assert_eq!(st.stage(), SearchStage::Finished);
    let again = find_game_install_path(&mut st, SearchEvent::SteamPath(None));
    assert_eq!(again, SearchAction::Finish(Some(vec![s("here")])));
}

#[test]
fn detected_games() {
    let g = detect_installed_games(&Some(s("x")), &None).unwrap();
    assert!(g.cs2_legacy_branch);
    assert!(!g.csgo_standalone);
}

#[test]
fn launch_urls() {
    assert_eq!(steam_launch_url(730), "steam://launch/730/option2");
    assert_eq!(steam_launch_url(4465480), "steam://launch/4465480/dialog");
    assert_eq!(steam_launch_url(-5), "steam://launch/-5/dialog");
}

#[test]
fn restart_with_and_without_steam() {
    let l = restart_csgo(Some(s("C:/Steam")), 730).unwrap();
    assert_eq!(l.steam_dir, "C:/Steam");
    assert_eq!(l.args, vec![s("steam://launch/730/option2"), s("-steam"), s("-insecure"), s("-novid")]);
    match restart_csgo(None, 730) {
        Err(LauncherError::Registry(m)) => assert_eq!(m, "failed to find Steam install path"),
        other => panic!("unexpected {other:?}"),
    }
}

#[test]
fn csgo_process_detection() {
    assert!(check_for_csgo(&vec![s("steam.exe"), s("csgo.exe")]));
    assert!(!check_for_csgo(&vec![s("CSGO.exe"), s("csgo.exe ")]));
    assert!(!check_for_csgo(&vec![]));
}
