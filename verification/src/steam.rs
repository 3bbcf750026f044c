//! Steam and the game: where Steam is installed, where the game is, how
//! Steam is asked to start it, and how a running game is closed.
use vstd::prelude::*;
use crate::error::LauncherError;
use crate::text::{chars_of, chars_eq, int_decimal, owned, push_i32, str_eq};
use crate::vdf::{document_paths, extract_library_paths, vdf_document};

verus! {

broadcast use vstd::string::group_string_axioms;

/// Which of the two game installations were found.
#[derive(Debug)]
pub struct InstalledGames {
    pub cs2_legacy_branch: bool,
    pub csgo_standalone: bool,
}

/// The folder of the legacy branch of Counter-Strike 2.
pub open spec fn cs2_folder() -> Seq<char> {
    "Counter-Strike Global Offensive"@
}

/// The alternative folder name of the legacy branch, tried after the first.
pub open spec fn cs2_folder_alt() -> Seq<char> {
    "Counter-Strike Global Offensive 730"@
}

/// The folder of the standalone CS:GO install.
pub open spec fn csgo_folder() -> Seq<char> {
    "csgo legacy"@
}

/// Which installations were found, given the folders found for the legacy
/// branch and for the standalone game.
pub fn detect_installed_games(
    cs2_legacy_dir: &Option<String>,
    csgo_standalone_dir: &Option<String>,
) -> (r: Result<InstalledGames, LauncherError>)
    ensures
        r matches Ok(g) && g.cs2_legacy_branch == cs2_legacy_dir.is_some()
            && g.csgo_standalone == csgo_standalone_dir.is_some(),
{
    Ok(
        InstalledGames {
            cs2_legacy_branch: cs2_legacy_dir.is_some(),
            csgo_standalone: csgo_standalone_dir.is_some(),
        },
    )
}

/// The Steam install path: the first of the registry values found, asked in
/// this order: `HKCU\Software\Valve\Steam\SteamPath`,
/// `HKLM\SOFTWARE\Wow6432Node\Valve\Steam\InstallPath`,
/// `HKLM\SOFTWARE\Valve\Steam\InstallPath`. Where there is no registry
/// every value is absent.
pub fn get_steam_install_path(
    user_steam_path: Option<String>,
    machine_wow64_install_path: Option<String>,
    machine_install_path: Option<String>,
) -> (r: Option<String>)
    ensures
        r == (if user_steam_path is Some {
            user_steam_path
        } else if machine_wow64_install_path is Some {
            machine_wow64_install_path
        } else {
            machine_install_path
        }),
{
    if user_steam_path.is_some() {
        user_steam_path
    } else if machine_wow64_install_path.is_some() {
        machine_wow64_install_path
    } else {
        machine_install_path
    }
}

/// The Steam install directory: the install path, when `steam.exe` is in it.
pub fn steam_install_dir(install_path: Option<String>, steam_exe_present: bool) -> (r: Option<
    String,
>)
    ensures
        r == (if steam_exe_present {
            install_path
        } else {
            None
        }),
{
    if steam_exe_present {
        install_path
    } else {
        None
    }
}

// ---------------------------------------------------------------------------
// Where the game is.
// ---------------------------------------------------------------------------

/// The game folder under a Steam library: `<library>/steamapps/common/<name>`,
/// as path components.
pub open spec fn library_game_dir(library: Seq<char>, name: Seq<char>) -> Seq<Seq<char>> {
    seq![library, "steamapps"@, "common"@, name]
}

/// The folder names looked for: the one asked for, and for the legacy
/// branch also its alternative name.
pub open spec fn folder_names(game_name: Seq<char>) -> Seq<Seq<char>> {
    if game_name == cs2_folder() {
        seq![game_name, cs2_folder_alt()]
    } else {
        seq![game_name]
    }
}

/// The views of the components of one path.
pub open spec fn components_view(p: Seq<String>) -> Seq<Seq<char>> {
    p.map_values(|s: String| s@)
}

/// The views of a list of strings.
pub open spec fn strings_view(v: Seq<String>) -> Seq<Seq<char>> {
    v.map_values(|s: String| s@)
}

fn literal(s: &str) -> (r: String)
    ensures
        r@ == s@,
{
    owned(s)
}

fn game_dir_under(library: &String, name: &String) -> (r: Vec<String>)
    ensures
        components_view(r@) == library_game_dir(library@, name@),
{
    let mut r: Vec<String> = Vec::new();
    r.push(owned(library.as_str()));
    r.push(literal("steamapps"));
    r.push(literal("common"));
    r.push(owned(name.as_str()));
    assert(components_view(r@) =~= library_game_dir(library@, name@));
    r
}

/// Where the search for the game's folder stands.
#[derive(Debug, Clone, Copy, PartialEq, Eq, Structural)]
pub enum SearchStage {
    /// Asking for the current directory.
    ReadingCurrentDir,
    /// Looking for `csgo.exe` in the current directory.
    CheckingCurrentDir,
    /// Asking for Steam's install path.
    ReadingSteamPath,
    /// Looking in Steam's own library for folder name `name`.
    CheckingSteamFolder { name: usize },
    /// Reading `libraryfolders.vdf`, for folder name `name`.
    ReadingLibraries { name: usize },
    /// Looking in library `lib` for folder name `name`.
    CheckingLibrary { name: usize, lib: usize },
    /// Done.
    Finished,
}

/// What the caller reports about the last action.
#[derive(Debug)]
pub enum SearchEvent {
    /// The current directory, if it could be read.
    CurrentDir(Option<String>),
    /// Steam's install path, if it is known.
    SteamPath(Option<String>),
    /// The text of `steamapps/libraryfolders.vdf`, if it could be read.
    LibraryFolders(Option<String>),
    /// Whether `csgo.exe` is in the folder asked about.
    GamePresent(bool),
}

/// What the caller is to do next.
#[derive(Debug, PartialEq, Eq)]
pub enum SearchAction {
    /// Read the current directory.
    ReadCurrentDir,
    /// Read Steam's install path.
    ReadSteamPath,
    /// Read `steamapps/libraryfolders.vdf` under `steam`.
    ReadLibraryFolders { steam: String },
    /// Tell whether `csgo.exe` is in the folder with these path components.
    CheckForGame { dir: Vec<String> },
    /// The search is over: the game's folder, if found, as path components.
    Finish(Option<Vec<String>>),
}

/// A report, over strings as character sequences.
pub enum SearchEventView {
    CurrentDir(Option<Seq<char>>),
    SteamPath(Option<Seq<char>>),
    LibraryFolders(Option<Seq<char>>),
    GamePresent(bool),
}

/// An action, over strings as character sequences.
pub enum SearchActionView {
    ReadCurrentDir,
    ReadSteamPath,
    ReadLibraryFolders { steam: Seq<char> },
    CheckForGame { dir: Seq<Seq<char>> },
    Finish { found: Option<Seq<Seq<char>>> },
}

/// The search, over strings as character sequences.
#[verifier::ext_equal]
pub struct SearchView {
    pub game_name: Seq<char>,
    pub stage: SearchStage,
    pub cwd: Seq<char>,
    pub steam: Seq<char>,
    pub libraries: Seq<Seq<char>>,
    pub found: Option<Seq<Seq<char>>>,
}

pub open spec fn opt_string_view(o: Option<String>) -> Option<Seq<char>> {
    match o {
        Some(s) => Some(s@),
        None => None,
    }
}

pub open spec fn opt_dir_view(o: Option<Vec<String>>) -> Option<Seq<Seq<char>>> {
    match o {
        Some(d) => Some(components_view(d@)),
        None => None,
    }
}

impl View for SearchEvent {
    type V = SearchEventView;

    open spec fn view(&self) -> SearchEventView {
        match self {
            SearchEvent::CurrentDir(d) => SearchEventView::CurrentDir(opt_string_view(*d)),
            SearchEvent::SteamPath(p) => SearchEventView::SteamPath(opt_string_view(*p)),
            SearchEvent::LibraryFolders(t) => SearchEventView::LibraryFolders(opt_string_view(*t)),
            SearchEvent::GamePresent(b) => SearchEventView::GamePresent(*b),
        }
    }
}

impl View for SearchAction {
    type V = SearchActionView;

    open spec fn view(&self) -> SearchActionView {
        match self {
            SearchAction::ReadCurrentDir => SearchActionView::ReadCurrentDir,
            SearchAction::ReadSteamPath => SearchActionView::ReadSteamPath,
            SearchAction::ReadLibraryFolders { steam } => SearchActionView::ReadLibraryFolders {
                steam: steam@,
            },
            SearchAction::CheckForGame { dir } => SearchActionView::CheckForGame {
                dir: components_view(dir@),
            },
            SearchAction::Finish(found) => SearchActionView::Finish { found: opt_dir_view(*found) },
        }
    }
}

/// The library paths that a `libraryfolders.vdf` text lists (none when it
/// does not parse).
pub open spec fn listed_libraries(text: Seq<char>) -> Seq<Seq<char>> {
    match vdf_document(text) {
        Some(doc) => document_paths(doc),
        None => Seq::empty(),
    }
}

/// The folder that a checking stage looks in.
pub open spec fn checked_dir(f: SearchView) -> Seq<Seq<char>> {
    match f.stage {
        SearchStage::CheckingCurrentDir => seq![f.cwd],
        SearchStage::CheckingSteamFolder { name } => library_game_dir(
            f.steam,
            folder_names(f.game_name)[name as int],
        ),
        SearchStage::CheckingLibrary { name, lib } => library_game_dir(
            f.libraries[lib as int],
            folder_names(f.game_name)[name as int],
        ),
        _ => Seq::empty(),
    }
}

/// Ending the search.
pub open spec fn search_finish(f: SearchView, found: Option<Seq<Seq<char>>>) -> (SearchView, SearchActionView) {
    (
        SearchView { stage: SearchStage::Finished, found, ..f },
        SearchActionView::Finish { found },
    )
}

/// Looking in Steam's own library for folder name `n`.
pub open spec fn check_steam_folder(f: SearchView, n: int) -> (SearchView, SearchActionView) {
    let g = SearchView { stage: SearchStage::CheckingSteamFolder { name: n as usize }, ..f };
    (g, SearchActionView::CheckForGame { dir: checked_dir(g) })
}

/// Moving on from folder name `n`: the next name, or the end.
pub open spec fn next_folder_name(f: SearchView, n: int) -> (SearchView, SearchActionView) {
    if n + 1 < folder_names(f.game_name).len() {
        check_steam_folder(f, n + 1)
    } else {
        search_finish(f, None)
    }
}

/// Looking in library `j` for folder name `n`, or moving on past the last library.
pub open spec fn check_library(f: SearchView, n: int, j: int) -> (SearchView, SearchActionView) {
    if j < f.libraries.len() {
        let g = SearchView {
            stage: SearchStage::CheckingLibrary { name: n as usize, lib: j as usize },
            ..f
        };
        (g, SearchActionView::CheckForGame { dir: checked_dir(g) })
    } else {
        next_folder_name(f, n)
    }
}

/// The first stage of a search: ask for the current directory.
pub open spec fn search_start(game_name: Seq<char>) -> (SearchView, SearchActionView) {
    (
        SearchView {
            game_name,
            stage: SearchStage::ReadingCurrentDir,
            cwd: Seq::empty(),
            steam: Seq::empty(),
            libraries: Seq::empty(),
            found: None,
        },
        SearchActionView::ReadCurrentDir,
    )
}

/// One step of the search. The current directory is tried first, and a hit
/// there ends the search at once. Otherwise, when Steam's path is known,
/// each folder name is looked for in Steam's own library and then in each
/// library that `libraryfolders.vdf` lists (read afresh for each name), in
/// order; the first folder holding `csgo.exe` is the result. A report that
/// does not answer the action asked for ends the search without a result;
/// a finished search repeats its result.
pub open spec fn search_next(f: SearchView, e: SearchEventView) -> (SearchView, SearchActionView) {
    match (f.stage, e) {
        (SearchStage::Finished, _) => (f, SearchActionView::Finish { found: f.found }),
        (SearchStage::ReadingCurrentDir, SearchEventView::CurrentDir(d)) => match d {
            Some(c) => {
                let g = SearchView { stage: SearchStage::CheckingCurrentDir, cwd: c, ..f };
                (g, SearchActionView::CheckForGame { dir: seq![c] })
            },
            None => (
                SearchView { stage: SearchStage::ReadingSteamPath, ..f },
                SearchActionView::ReadSteamPath,
            ),
        },
        (SearchStage::CheckingCurrentDir, SearchEventView::GamePresent(present)) => if present {
            search_finish(f, Some(seq![f.cwd]))
        } else {
            (SearchView { stage: SearchStage::ReadingSteamPath, ..f }, SearchActionView::ReadSteamPath)
        },
        (SearchStage::ReadingSteamPath, SearchEventView::SteamPath(p)) => match p {
            Some(s) => check_steam_folder(SearchView { steam: s, ..f }, 0),
            None => search_finish(f, None),
        },
        (SearchStage::CheckingSteamFolder { name }, SearchEventView::GamePresent(present)) =>
            if present {
            search_finish(f, Some(checked_dir(f)))
        } else {
            (
                SearchView { stage: SearchStage::ReadingLibraries { name }, ..f },
                SearchActionView::ReadLibraryFolders { steam: f.steam },
            )
        },
        (SearchStage::ReadingLibraries { name }, SearchEventView::LibraryFolders(text)) => {
            let libraries = match text {
                Some(t) => listed_libraries(t),
                None => Seq::empty(),
            };
            check_library(SearchView { libraries, ..f }, name as int, 0)
        },
        (SearchStage::CheckingLibrary { name, lib }, SearchEventView::GamePresent(present)) =>
            if present {
            search_finish(f, Some(checked_dir(f)))
        } else {
            check_library(f, name as int, lib + 1)
        },
        _ => search_finish(f, None),
    }
}

/// The state of one search for the game's folder.
#[derive(Debug)]
pub struct GameSearch {
    game_name: String,
    stage: SearchStage,
    cwd: String,
    steam: String,
    libraries: Vec<String>,
    found: Option<Vec<String>>,
}

impl View for GameSearch {
    type V = SearchView;

    closed spec fn view(&self) -> SearchView {
        SearchView {
            game_name: self.game_name@,
            stage: self.stage,
            cwd: self.cwd@,
            steam: self.steam@,
            libraries: strings_view(self.libraries@),
            found: opt_dir_view(self.found),
        }
    }
}

/// The stages name an existing folder name and library.
pub open spec fn search_ok(f: SearchView) -> bool {
    match f.stage {
        SearchStage::CheckingSteamFolder { name } => name < folder_names(f.game_name).len(),
        SearchStage::ReadingLibraries { name } => name < folder_names(f.game_name).len(),
        SearchStage::CheckingLibrary { name, lib } => name < folder_names(f.game_name).len()
            && lib < f.libraries.len() && f.libraries.len() <= usize::MAX,
        _ => true,
    }
}

fn copy_components(d: &Vec<String>) -> (r: Vec<String>)
    ensures
        components_view(r@) == components_view(d@),
{
    let mut r: Vec<String> = Vec::new();
    let mut i: usize = 0;
    while i < d.len()
        invariant
            i <= d@.len(),
            components_view(r@) == components_view(d@.take(i as int)),
        decreases d@.len() - i,
    {
        let ghost before = r@;
        r.push(owned(d[i].as_str()));
        assert(components_view(r@) =~= components_view(before).push(d@[i as int]@));
        assert(components_view(d@.take(i + 1)) =~= components_view(d@.take(i as int)).push(
            d@[i as int]@,
        ));
        i = i + 1;
    }
    assert(d@.take(d@.len() as int) =~= d@);
    r
}

fn copy_found(o: &Option<Vec<String>>) -> (r: Option<Vec<String>>)
    ensures
        opt_dir_view(r) == opt_dir_view(*o),
{
    match o {
        Some(d) => Some(copy_components(d)),
        None => None,
    }
}

/// Starts looking for the game folder `game_name`: first, the current directory.
pub fn begin_game_search(game_name: &str) -> (r: (GameSearch, SearchAction))
    ensures
        (r.0@, r.1@) == search_start(game_name@),
        search_ok(r.0@),
{
    let search = GameSearch {
        game_name: owned(game_name),
        stage: SearchStage::ReadingCurrentDir,
        cwd: String::new(),
        steam: String::new(),
        libraries: Vec::new(),
        found: None,
    };
    assert(search@ =~= search_start(game_name@).0);
    (search, SearchAction::ReadCurrentDir)
}

impl GameSearch {
    /// Where the search stands.
    pub fn stage(&self) -> (s: SearchStage)
        ensures
            s == self@.stage,
    {
        self.stage
    }

    fn folder_name(&self, n: usize) -> (r: String)
        requires
            n < folder_names(self@.game_name).len(),
        ensures
            r@ == folder_names(self@.game_name)[n as int],
    {
        if n == 0 {
            owned(self.game_name.as_str())
        } else {
            literal("Counter-Strike Global Offensive 730")
        }
    }

    fn name_count(&self) -> (r: usize)
        ensures
            r == folder_names(self@.game_name).len(),
    {
        if str_eq(self.game_name.as_str(), "Counter-Strike Global Offensive") {
            2
        } else {
            1
        }
    }

    fn finish(&mut self, found: Option<Vec<String>>) -> (a: SearchAction)
        ensures
            (final(self)@, a@) == search_finish(old(self)@, opt_dir_view(found)),
    {
        let kept = copy_found(&found);
        self.stage = SearchStage::Finished;
        self.found = kept;
        assert(final(self)@ =~= search_finish(old(self)@, opt_dir_view(found)).0);
        SearchAction::Finish(found)
    }

    fn check_steam_folder(&mut self, n: usize) -> (a: SearchAction)
        requires
            n < folder_names(old(self)@.game_name).len(),
        ensures
            (final(self)@, a@) == check_steam_folder(old(self)@, n as int),
    {
        self.stage = SearchStage::CheckingSteamFolder { name: n };
        assert(final(self)@ =~= check_steam_folder(old(self)@, n as int).0);
        let name = self.folder_name(n);
        SearchAction::CheckForGame { dir: game_dir_under(&self.steam, &name) }
    }

    fn next_folder_name(&mut self, n: usize) -> (a: SearchAction)
        requires
            n < folder_names(old(self)@.game_name).len(),
        ensures
            (final(self)@, a@) == next_folder_name(old(self)@, n as int),
    {
        if n + 1 < self.name_count() {
            self.check_steam_folder(n + 1)
        } else {
            self.finish(None)
        }
    }

    fn check_library(&mut self, n: usize, j: usize) -> (a: SearchAction)
        requires
            n < folder_names(old(self)@.game_name).len(),
            j <= old(self)@.libraries.len(),
        ensures
            (final(self)@, a@) == check_library(old(self)@, n as int, j as int),
    {
        if j < self.libraries.len() {
            self.stage = SearchStage::CheckingLibrary { name: n, lib: j };
            assert(final(self)@ =~= check_library(old(self)@, n as int, j as int).0);
            let name = self.folder_name(n);
            SearchAction::CheckForGame { dir: game_dir_under(&self.libraries[j], &name) }
        } else {
            self.next_folder_name(n)
        }
    }

    /// The folder being checked.
    fn checked(&self) -> (r: Vec<String>)
        requires
            search_ok(self@),
        ensures
            components_view(r@) == checked_dir(self@),
    {
        match self.stage {
            SearchStage::CheckingCurrentDir => {
                let mut r: Vec<String> = Vec::new();
                r.push(owned(self.cwd.as_str()));
                assert(components_view(r@) =~= seq![self.cwd@]);
                r
            },
            SearchStage::CheckingSteamFolder { name } => {
                let n = self.folder_name(name);
                game_dir_under(&self.steam, &n)
            },
            SearchStage::CheckingLibrary { name, lib } => {
                let n = self.folder_name(name);
                game_dir_under(&self.libraries[lib], &n)
            },
            _ => {
                let r: Vec<String> = Vec::new();
                assert(components_view(r@) =~= Seq::<Seq<char>>::empty());
                r
            },
        }
    }
}

/// One step of the search for the game's folder: from what the last
/// action reported, the next action (see `search_next`).
pub fn find_game_install_path(search: &mut GameSearch, event: SearchEvent) -> (a: SearchAction)
    requires
        search_ok(old(search)@),
    ensures
        (final(search)@, a@) == search_next(old(search)@, event@),
        search_ok(final(search)@),
{
    let ghost f0 = search@;
    let ghost e0 = event@;
    proof {
        if !(f0.stage is ReadingLibraries) {
            lemma_search_step(f0, e0);
        }
    }
    match (search.stage, event) {
        (SearchStage::Finished, _) => SearchAction::Finish(copy_found(&search.found)),
        (SearchStage::ReadingCurrentDir, SearchEvent::CurrentDir(d)) => match d {
            Some(c) => {
                let dir = {
                    let mut r: Vec<String> = Vec::new();
                    r.push(owned(c.as_str()));
                    assert(components_view(r@) =~= seq![c@]);
                    r
                };
                search.cwd = c;
                search.stage = SearchStage::CheckingCurrentDir;
                assert(final(search)@ =~= search_next(old(search)@, event@).0);
                SearchAction::CheckForGame { dir }
            },
            None => {
                search.stage = SearchStage::ReadingSteamPath;
                assert(final(search)@ =~= search_next(old(search)@, event@).0);
                SearchAction::ReadSteamPath
            },
        },
        (SearchStage::CheckingCurrentDir, SearchEvent::GamePresent(present)) => if present {
            let dir = search.checked();
            search.finish(Some(dir))
        } else {
            search.stage = SearchStage::ReadingSteamPath;
            assert(final(search)@ =~= search_next(old(search)@, event@).0);
            SearchAction::ReadSteamPath
        },
        (SearchStage::ReadingSteamPath, SearchEvent::SteamPath(p)) => match p {
            Some(s) => {
                search.steam = s;
                search.check_steam_folder(0)
            },
            None => search.finish(None),
        },
        (SearchStage::CheckingSteamFolder { name }, SearchEvent::GamePresent(present)) =>
            if present {
            let dir = search.checked();
            search.finish(Some(dir))
        } else {
            search.stage = SearchStage::ReadingLibraries { name };
            assert(final(search)@ =~= search_next(old(search)@, event@).0);
            SearchAction::ReadLibraryFolders { steam: owned(search.steam.as_str()) }
        },
        (SearchStage::ReadingLibraries { name }, SearchEvent::LibraryFolders(text)) => {
            let libraries = match text {
                Some(t) => match extract_library_paths(t.as_str()) {
                    Some(paths) => paths,
                    None => Vec::new(),
                },
                None => Vec::new(),
            };
            let n_libs = libraries.len();
            proof {
                assert(strings_view(libraries@).len() == n_libs);
                lemma_search_step(f0, e0);
            }
            assert(strings_view(libraries@) =~= match event@ {
                SearchEventView::LibraryFolders(Some(t)) => listed_libraries(t),
                _ => Seq::empty(),
            });
            search.libraries = libraries;
            search.check_library(name, 0)
        },
        (SearchStage::CheckingLibrary { name, lib }, SearchEvent::GamePresent(present)) =>
            if present {
            let dir = search.checked();
            search.finish(Some(dir))
        } else {
            let n_libs = search.libraries.len();
            assert(search@.libraries.len() == n_libs);
            search.check_library(name, lib + 1)
        },
        _ => search.finish(None),
    }
}

/// Measure of how far a search is from its end: the stage, then the
/// libraries left.
pub open spec fn search_rank(f: SearchView) -> (int, int) {
    let stage_rank: int = match f.stage {
        SearchStage::ReadingCurrentDir => 10,
        SearchStage::CheckingCurrentDir => 9,
        SearchStage::ReadingSteamPath => 8,
        SearchStage::CheckingSteamFolder { name } => 7 - 3 * name,
        SearchStage::ReadingLibraries { name } => 6 - 3 * name,
        SearchStage::CheckingLibrary { name, lib } => 5 - 3 * name,
        SearchStage::Finished => 0,
    };
    let libs_left: int = match f.stage {
        SearchStage::CheckingLibrary { name, lib } => f.libraries.len() - lib,
        _ => 0,
    };
    (stage_rank, libs_left)
}

/// The search keeps its stages within the folder names and libraries, and
/// always ends: every step before the end lowers the stage rank, or keeps
/// it and checks a later library; the end is final.
pub proof fn lemma_search_step(f: SearchView, e: SearchEventView)
    requires
        search_ok(f),
        f.stage is ReadingLibraries ==> (e matches SearchEventView::LibraryFolders(Some(t))
            ==> listed_libraries(t).len() <= usize::MAX),
    ensures
        search_ok(search_next(f, e).0),
        ({
            let (r0, l0) = search_rank(f);
            let (r1, l1) = search_rank(search_next(f, e).0);
            f.stage != SearchStage::Finished ==> r1 < r0 || (r1 == r0 && 0 <= l1 < l0)
        }),
        search_rank(search_next(f, e).0).0 >= 0,
        f.stage == SearchStage::Finished ==> search_next(f, e).0 == f,
{
    assert(folder_names(f.game_name).len() <= 2);
    match f.stage {
        SearchStage::CheckingLibrary { name, lib } => {
            assert(lib + 1 <= f.libraries.len());
        },
        _ => {},
    }
}

/// When the current directory holds `csgo.exe`, the search ends right
/// there with it, for any game name: the current directory is read, then
/// checked, then returned; Steam's path and `libraryfolders.vdf` are never
/// asked for.
pub proof fn lemma_search_stops_at_current_dir(game_name: Seq<char>, cwd: Seq<char>)
    ensures
        ({
            let (f0, a0) = search_start(game_name);
            let (f1, a1) = search_next(f0, SearchEventView::CurrentDir(Some(cwd)));
            let (f2, a2) = search_next(f1, SearchEventView::GamePresent(true));
            &&& a0 == SearchActionView::ReadCurrentDir
            &&& a1 == (SearchActionView::CheckForGame { dir: seq![cwd] })
            &&& a2 == (SearchActionView::Finish { found: Some(seq![cwd]) })
            &&& f2.stage == SearchStage::Finished
        }),
{
}

/// A folder is returned only when the caller reported `csgo.exe` in exactly
/// that folder, the one the search had asked about.
pub proof fn lemma_search_result_was_checked(f: SearchView, e: SearchEventView)
    requires
        search_ok(f),
        f.stage != SearchStage::Finished,
    ensures
        search_next(f, e).1 matches SearchActionView::Finish { found: Some(d) } ==> e
            == SearchEventView::GamePresent(true) && d == checked_dir(f) && (
        f.stage == SearchStage::CheckingCurrentDir || f.stage is CheckingSteamFolder
            || f.stage is CheckingLibrary),
{
}
// ---------------------------------------------------------------------------
// A whole search.
// ---------------------------------------------------------------------------

/// A machine that a search asks: its current directory and Steam's path,
/// where they can be had, the text of `steamapps/libraryfolders.vdf` under
/// Steam's path, where it can be read, and the folders that hold `csgo.exe`.
#[verifier::ext_equal]
pub struct SearchWorld {
    pub cwd: Option<Seq<char>>,
    pub steam: Option<Seq<char>>,
    pub library_folders: Option<Seq<char>>,
    pub game_dirs: Set<Seq<Seq<char>>>,
}

/// What the machine reports for an action.
pub open spec fn world_reply(w: SearchWorld, a: SearchActionView) -> SearchEventView {
    match a {
        SearchActionView::ReadCurrentDir => SearchEventView::CurrentDir(w.cwd),
        SearchActionView::ReadSteamPath => SearchEventView::SteamPath(w.steam),
        SearchActionView::ReadLibraryFolders { .. } => SearchEventView::LibraryFolders(
            w.library_folders,
        ),
        SearchActionView::CheckForGame { dir } => SearchEventView::GamePresent(
            w.game_dirs.contains(dir),
        ),
        SearchActionView::Finish { .. } => SearchEventView::GamePresent(false),
    }
}

/// The search after `fuel` rounds of acting on the machine and reporting
/// back, from the state `f` and its action `a`.
pub open spec fn run_search(f: SearchView, a: SearchActionView, w: SearchWorld, fuel: nat) -> SearchView
    decreases fuel,
{
    if fuel == 0 {
        f
    } else {
        let (g, b) = search_next(f, world_reply(w, a));
        run_search(g, b, w, (fuel - 1) as nat)
    }
}

/// The libraries that the machine's `libraryfolders.vdf` lists.
pub open spec fn world_libraries(w: SearchWorld) -> Seq<Seq<char>> {
    match w.library_folders {
        Some(t) => listed_libraries(t),
        None => Seq::empty(),
    }
}

/// The folders tried for one folder name: in Steam's own library, then in
/// each listed library, in order.
pub open spec fn name_candidates(steam: Seq<char>, libs: Seq<Seq<char>>, name: Seq<char>) -> Seq<
    Seq<Seq<char>>,
> {
    seq![library_game_dir(steam, name)] + libs.map_values(
        |l: Seq<char>| library_game_dir(l, name),
    )
}

/// The folders tried for the folder names from the `n`-th on, in order.
pub open spec fn candidates_from(game_name: Seq<char>, steam: Seq<char>, libs: Seq<Seq<char>>, n: int) -> Seq<
    Seq<Seq<char>>,
>
    decreases folder_names(game_name).len() - n,
{
    if 0 <= n < folder_names(game_name).len() {
        name_candidates(steam, libs, folder_names(game_name)[n]) + candidates_from(
            game_name,
            steam,
            libs,
            n + 1,
        )
    } else {
        Seq::empty()
    }
}

/// The first of the folders that holds the game.
pub open spec fn first_present(cands: Seq<Seq<Seq<char>>>, dirs: Set<Seq<Seq<char>>>) -> Option<
    Seq<Seq<char>>,
>
    decreases cands.len(),
{
    if cands.len() == 0 {
        None
    } else if dirs.contains(cands[0]) {
        Some(cands[0])
    } else {
        first_present(cands.drop_first(), dirs)
    }
}

/// Where the game is on a machine: the current directory when it holds
/// `csgo.exe`; else, with Steam's path known, the first folder that holds it
/// among, for each folder name in turn, Steam's own library and then each
/// listed library; else nowhere.
pub open spec fn expected_game_dir(game_name: Seq<char>, w: SearchWorld) -> Option<Seq<Seq<char>>> {
    if w.cwd is Some && w.game_dirs.contains(seq![w.cwd->0]) {
        Some(seq![w.cwd->0])
    } else {
        match w.steam {
            None => None,
            Some(s) => first_present(
                candidates_from(game_name, s, world_libraries(w), 0),
                w.game_dirs,
            ),
        }
    }
}

/// Rounds enough to finish the libraries from the `j`-th on for folder name
/// `n`, and the folder names after it.
pub open spec fn library_rounds(libs: int, names: int, n: int, j: int) -> int {
    (libs - j) + if n + 1 < names {
        libs + 2
    } else {
        0
    }
}

proof fn lemma_run_finished(f: SearchView, a: SearchActionView, w: SearchWorld, fuel: nat)
    requires
        f.stage == SearchStage::Finished,
    ensures
        run_search(f, a, w, fuel) == f,
    decreases fuel,
{
    if fuel > 0 {
        let (g, b) = search_next(f, world_reply(w, a));
        assert(g == f);
        lemma_run_finished(g, b, w, (fuel - 1) as nat);
    }
}

proof fn lemma_first_present_step(x: Seq<Seq<char>>, t: Seq<Seq<Seq<char>>>, dirs: Set<Seq<Seq<char>>>)
    ensures
        first_present(seq![x] + t, dirs) == if dirs.contains(x) {
            Some(x)
        } else {
            first_present(t, dirs)
        },
{
    assert((seq![x] + t)[0] == x);
    assert((seq![x] + t).drop_first() =~= t);
}

proof fn lemma_run_libraries(f: SearchView, n: int, j: int, w: SearchWorld, fuel: nat)
    requires
        f.libraries == world_libraries(w),
        f.libraries.len() <= usize::MAX,
        0 <= n < folder_names(f.game_name).len(),
        0 <= j <= f.libraries.len(),
        fuel >= library_rounds(f.libraries.len() as int, folder_names(f.game_name).len() as int, n, j),
    ensures
        ({
            let (g, b) = check_library(f, n, j);
            let r = run_search(g, b, w, fuel);
            &&& r.stage == SearchStage::Finished
            &&& r.found == first_present(
                f.libraries.skip(j).map_values(
                    |l: Seq<char>| library_game_dir(l, folder_names(f.game_name)[n]),
                ) + candidates_from(f.game_name, f.steam, f.libraries, n + 1),
                w.game_dirs,
            )
        }),
    decreases folder_names(f.game_name).len() - n, f.libraries.len() - j,
{
    let libs = f.libraries;
    let name = folder_names(f.game_name)[n];
    let rest = candidates_from(f.game_name, f.steam, libs, n + 1);
    let d = |l: Seq<char>| library_game_dir(l, name);
    assert(folder_names(f.game_name).len() <= 2);
    if j < libs.len() {
        let (g, b) = check_library(f, n, j);
        let here = library_game_dir(libs[j], name);
        assert(b == SearchActionView::CheckForGame { dir: here });
        let (g1, b1) = search_next(g, world_reply(w, b));
        assert(libs.skip(j).map_values(d) + rest =~= seq![here] + (libs.skip(j + 1).map_values(d)
            + rest));
        lemma_first_present_step(here, libs.skip(j + 1).map_values(d) + rest, w.game_dirs);
        if w.game_dirs.contains(here) {
            lemma_run_finished(g1, b1, w, (fuel - 1) as nat);
        } else {
            assert((g1, b1) == check_library(g, n, j + 1));
            lemma_run_libraries(g, n, j + 1, w, (fuel - 1) as nat);
        }
    } else {
        assert(libs.skip(j).map_values(d) =~= Seq::<Seq<Seq<char>>>::empty());
        assert(libs.skip(j).map_values(d) + rest =~= rest);
        if n + 1 < folder_names(f.game_name).len() {
            lemma_run_steam_folder(f, n + 1, w, fuel);
        } else {
            let (g, b) = check_library(f, n, j);
            lemma_run_finished(g, b, w, fuel);
        }
    }
}

proof fn lemma_run_steam_folder(f: SearchView, n: int, w: SearchWorld, fuel: nat)
    requires
        world_libraries(w).len() <= usize::MAX,
        0 <= n < folder_names(f.game_name).len(),
        fuel >= 2 + library_rounds(
            world_libraries(w).len() as int,
            folder_names(f.game_name).len() as int,
            n,
            0,
        ),
    ensures
        ({
            let (g, b) = check_steam_folder(f, n);
            let r = run_search(g, b, w, fuel);
            &&& r.stage == SearchStage::Finished
            &&& r.found == first_present(
                candidates_from(f.game_name, f.steam, world_libraries(w), n),
                w.game_dirs,
            )
        }),
    decreases folder_names(f.game_name).len() - n, world_libraries(w).len() + 1,
{
    let libs = world_libraries(w);
    let name = folder_names(f.game_name)[n];
    let d = |l: Seq<char>| library_game_dir(l, name);
    let rest = candidates_from(f.game_name, f.steam, libs, n + 1);
    let (g, b) = check_steam_folder(f, n);
    let here = library_game_dir(f.steam, name);
    assert(b == SearchActionView::CheckForGame { dir: here });
    let (g1, b1) = search_next(g, world_reply(w, b));
    assert(candidates_from(f.game_name, f.steam, libs, n) == name_candidates(f.steam, libs, name)
        + rest);
    assert(name_candidates(f.steam, libs, name) + rest =~= seq![here] + (libs.skip(0).map_values(d)
        + rest));
    lemma_first_present_step(here, libs.skip(0).map_values(d) + rest, w.game_dirs);
    if w.game_dirs.contains(here) {
        lemma_run_finished(g1, b1, w, (fuel - 1) as nat);
    } else {
        assert(b1 == SearchActionView::ReadLibraryFolders { steam: f.steam });
        let (g2, b2) = search_next(g1, world_reply(w, b1));
        let h = SearchView { libraries: libs, ..g1 };
        assert((g2, b2) == check_library(h, n, 0));
        lemma_run_libraries(h, n, 0, w, (fuel - 2) as nat);
    }
}

/// A whole search, run against any machine, ends with the first folder that
/// holds `csgo.exe` in this order: the current directory; then, when Steam's
/// path is known, for the asked name and (for the legacy branch) its
/// alternative name in turn, Steam's own library and then each library that
/// `libraryfolders.vdf` lists; and with nothing when none holds it or
/// Steam's path is unknown. It ends within twice the number of libraries
/// plus seven rounds.
pub proof fn lemma_search_finds_first_present(game_name: Seq<char>, w: SearchWorld, fuel: nat)
    requires
        world_libraries(w).len() <= usize::MAX,
        fuel >= 2 * world_libraries(w).len() + 7,
    ensures
        ({
            let (f0, a0) = search_start(game_name);
            let r = run_search(f0, a0, w, fuel);
            &&& r.stage == SearchStage::Finished
            &&& r.found == expected_game_dir(game_name, w)
        }),
{
    let (f0, a0) = search_start(game_name);
    let (f1, a1) = search_next(f0, world_reply(w, a0));
    assert(folder_names(game_name).len() <= 2);
    assert(folder_names(game_name).len() >= 1);
    let (f2, a2) = search_next(f1, world_reply(w, a1));
    assert(run_search(f0, a0, w, fuel) == run_search(f1, a1, w, (fuel - 1) as nat));
    assert(run_search(f1, a1, w, (fuel - 1) as nat) == run_search(f2, a2, w, (fuel - 2) as nat));
    match w.cwd {
        Some(c) => {
            assert(a1 == SearchActionView::CheckForGame { dir: seq![c] });
            if w.game_dirs.contains(seq![c]) {
                lemma_run_finished(f2, a2, w, (fuel - 2) as nat);
            } else {
                assert(a2 == SearchActionView::ReadSteamPath);
                let (f3, a3) = search_next(f2, world_reply(w, a2));
                assert(run_search(f2, a2, w, (fuel - 2) as nat) == run_search(
                    f3,
                    a3,
                    w,
                    (fuel - 3) as nat,
                ));
                match w.steam {
                    Some(s) => {
                        assert((f3, a3) == check_steam_folder(SearchView { steam: s, ..f2 }, 0));
                        lemma_run_steam_folder(SearchView { steam: s, ..f2 }, 0, w, (fuel - 3) as nat);
                    },
                    None => {
                        lemma_run_finished(f3, a3, w, (fuel - 3) as nat);
                    },
                }
            }
        },
        None => {
            assert(a1 == SearchActionView::ReadSteamPath);
            match w.steam {
                Some(s) => {
                    assert((f2, a2) == check_steam_folder(SearchView { steam: s, ..f1 }, 0));
                    lemma_run_steam_folder(SearchView { steam: s, ..f1 }, 0, w, (fuel - 2) as nat);
                },
                None => {
                    lemma_run_finished(f2, a2, w, (fuel - 2) as nat);
                },
            }
        },
    }
}

// ---------------------------------------------------------------------------
// Starting the game through Steam.
// ---------------------------------------------------------------------------

/// How Steam is started: `steam.exe` in `steam_dir`, with these arguments,
/// working in `steam_dir`.
#[derive(Debug)]
pub struct SteamLaunch {
    pub steam_dir: String,
    pub args: Vec<String>,
}

/// The Steam protocol URL that starts a game: option 2 of the launch
/// dialog for app 730, the launch dialog for any other app.
pub open spec fn launch_url(appid: i32) -> Seq<char> {
    if appid == 730 {
        "steam://launch/730/option2"@
    } else {
        "steam://launch/"@ + int_decimal(appid as int) + "/dialog"@
    }
}

/// The Steam protocol URL that starts a game.
pub fn steam_launch_url(appid: i32) -> (r: String)
    ensures
        r@ == launch_url(appid),
{
    if appid == 730 {
        literal("steam://launch/730/option2")
    } else {
        let mut s = literal("steam://launch/");
        push_i32(&mut s, appid);
        s.append("/dialog");
        s
    }
}

/// Starting the game anew, once a running game has been closed: with the
/// Steam directory known, Steam is started with the launch URL and
/// `-steam -insecure -novid`; without it, a registry error.
pub fn restart_csgo(steam_dir: Option<String>, appid: i32) -> (r: Result<SteamLaunch, LauncherError>)
    ensures
        match steam_dir {
            None => r matches Err(LauncherError::Registry(m)) && m@
                == "failed to find Steam install path"@,
            Some(d) => r matches Ok(l) && l.steam_dir@ == d@ && strings_view(l.args@) == seq![
                launch_url(appid),
                "-steam"@,
                "-insecure"@,
                "-novid"@,
            ],
        },
{
    match steam_dir {
        None => Err(LauncherError::Registry(literal("failed to find Steam install path"))),
        Some(d) => {
            let mut args: Vec<String> = Vec::new();
            args.push(steam_launch_url(appid));
            args.push(literal("-steam"));
            args.push(literal("-insecure"));
            args.push(literal("-novid"));
            assert(strings_view(args@) =~= seq![
                launch_url(appid),
                "-steam"@,
                "-insecure"@,
                "-novid"@,
            ]);
            Ok(SteamLaunch { steam_dir: d, args })
        },
    }
}

// ---------------------------------------------------------------------------
// Is the game running.
// ---------------------------------------------------------------------------

/// Whether a process named exactly `csgo.exe` is among the running ones.
pub fn check_for_csgo(process_names: &Vec<String>) -> (r: bool)
    ensures
        r == exists|i: int| 0 <= i < process_names@.len() && process_names@[i]@ == "csgo.exe"@,
{
    let target = chars_of("csgo.exe");
    let mut i: usize = 0;
    while i < process_names.len()
        invariant
            i <= process_names@.len(),
            target@ == "csgo.exe"@,
            forall|j: int| 0 <= j < i ==> process_names@[j]@ != "csgo.exe"@,
        decreases process_names@.len() - i,
    {
        let name = chars_of(process_names[i].as_str());
        if chars_eq(name.as_slice(), target.as_slice()) {
            return true;
        }
        i = i + 1;
    }
    false
}

} // verus!
