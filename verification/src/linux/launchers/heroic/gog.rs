//! Heroic Games Launcher: the games of GOG, which the file of installed
//! games lists.

use vstd::prelude::*;
use crate::data::{Game, SupportedLaunchers};
use crate::linux::launchers::heroic::{
    games_from, get_heroic_config_path, heroic_config_path, heroic_config_path_for, is_game_of,
    parse_all_games_from_library, LibraryRecord, ParsableLibraryData, Store,
};
use crate::parsers::{lemma_value_json_shrinks, scan_value_json, step, value_json};
use crate::scanner::{scan_all, RecordScanner};
use crate::text::{
    find_last, is_proper_suffix, lemma_suffix_of_suffix, split_at_last, tail, to_chars, to_text,
    views,
};
use crate::utils::paths::{join_path, joined, probe, PathKind};
use crate::utils::strings::{clean_title_chars, cleaned_title, lemma_cleaned_title_is_clean};

verus! {

/// What the file of installed games says of one game.
pub type ParsableGOGInstalledData = ParsableLibraryData;

/// The source of the games that this module detects.
pub const LAUNCHER: SupportedLaunchers = SupportedLaunchers::HeroicGamesGOG;

/// The next game of the file of installed games: the value of
/// `install_path` and, after it, that of `appName`. The title is what
/// follows the last slash of the install path, cleaned; a game whose install
/// path has no slash is passed over, and the search goes on after its
/// `appName`.
pub open spec fn game_from_gog_installed(content: Seq<char>) -> Option<(Seq<char>, LibraryRecord)>
    decreases content.len(),
{
    match value_json(content, "install_path"@) {
        Some((after_path, install_path)) => match value_json(after_path, "appName"@) {
            Some((rest, app_id)) => match split_at_last(install_path, '/') {
                Some((_, name)) => Some(
                    (rest, LibraryRecord { app_id, title: cleaned_title(name), install_path }),
                ),
                None => if rest.len() < content.len() {
                    game_from_gog_installed(rest)
                } else {
                    None
                },
            },
            None => None,
        },
        None => None,
    }
}

/// An installed game is found after at least one character.
pub proof fn lemma_game_from_gog_installed_shrinks(content: Seq<char>)
    ensures
        game_from_gog_installed(content) matches Some((rest, _)) ==> is_proper_suffix(
            rest,
            content,
        ),
    decreases content.len(),
{
    if game_from_gog_installed(content) is Some {
        lemma_value_json_shrinks(content, "install_path"@);
        let found_path = value_json(content, "install_path"@)->0;
        lemma_value_json_shrinks(found_path.0, "appName"@);
        let rest = (value_json(found_path.0, "appName"@)->0).0;
        lemma_suffix_of_suffix(rest, found_path.0, content);
        if split_at_last(found_path.1, '/') is None {
            lemma_game_from_gog_installed_shrinks(rest);
            let found = game_from_gog_installed(rest)->0;
            lemma_suffix_of_suffix(found.0, rest, content);
        }
    }
}

/// Utility function which parses a single game from the Heroic Games GOG store `installed.json` file
///
/// Unfortunately a separate parser function is needed for GOG's `gog_store/installed.json` file because:
/// 1. `store_cache/gog_library.json` has `is_installed` as always false
/// 2. `gog_store/library.json` is empty for some reason
pub fn scan_game_from_gog_installed(content: &[char]) -> (r: Option<
    (usize, ParsableGOGInstalledData),
>)
    ensures
        match r {
            Some((consumed, data)) => consumed <= content@.len() && game_from_gog_installed(
                content@,
            ) == Some((content@.skip(consumed as int), data@)),
            None => game_from_gog_installed(content@) is None,
        },
{
    let key_install_path = to_chars("install_path");
    let key_app_name = to_chars("appName");
    let mut pos: usize = 0;
    proof {
        assert(content@.skip(0) =~= content@);
    }
    loop
        invariant
            pos <= content@.len(),
            key_install_path@ == "install_path"@,
            key_app_name@ == "appName"@,
            game_from_gog_installed(content@) == game_from_gog_installed(content@.skip(pos as int)),
        decreases content@.len() - pos,
    {
        let (_, here) = step(content, pos, 0);
        proof {
            lemma_value_json_shrinks(here@, "install_path"@);
        }
        // INSTALL_PATH
        let (consumed, install_path) = match scan_value_json(here, key_install_path.as_slice()) {
            Some(found) => found,
            None => {
                return None;
            },
        };
        let (after_path, rest) = step(content, pos, consumed);
        // ID
        let (consumed, app_id) = match scan_value_json(rest, key_app_name.as_slice()) {
            Some(found) => found,
            None => {
                return None;
            },
        };
        let (end, _) = step(content, after_path, consumed);
        // TITLE
        match find_last(install_path, '/') {
            Some(at) => {
                let title = clean_title_chars(tail(install_path, at + 1));
                proof {
                    lemma_cleaned_title_is_clean(install_path@.skip(at + 1));
                }
                let title = clean_title_chars(title.as_slice());
                return Some(
                    (
                        end,
                        ParsableLibraryData {
                            app_id: to_text(app_id),
                            title: to_text(title.as_slice()),
                            install_path: to_text(install_path),
                        },
                    ),
                );
            },
            None => {
                pos = end;
            },
        }
    }
}

/// Reads the games of the file of installed games, one after the other.
pub struct InstalledScanner;

impl RecordScanner for InstalledScanner {
    type Record = ParsableGOGInstalledData;

    open spec fn extract(&self, text: Seq<char>) -> Option<(Seq<char>, LibraryRecord)> {
        game_from_gog_installed(text)
    }

    proof fn extract_shrinks(&self, text: Seq<char>) {
        lemma_game_from_gog_installed_shrinks(text);
    }

    fn extract_next(&self, text: &[char]) -> (r: Option<(usize, ParsableGOGInstalledData)>) {
        scan_game_from_gog_installed(text)
    }
}

/// The store of GOG: where its files are, and whether Heroic runs in a flatpak.
#[derive(Debug)]
pub struct HeroicGOG {
    pub path_gog_installed_games: String,
    pub path_icons: String,
    pub is_using_flatpak: bool,
}

impl HeroicGOG {
    /// How this store names itself and keeps its images: the image of a
    /// game of GOG is its icon.
    pub open spec fn store() -> Store {
        Store {
            launcher: SupportedLaunchers::HeroicGamesGOG,
            source: "gog"@,
            image_extension: ".png"@,
            image_is_icon: true,
        }
    }

    /// The source of the games of this launcher.
    pub fn get_launcher_type(&self) -> (r: SupportedLaunchers)
        ensures
            r == SupportedLaunchers::HeroicGamesGOG,
    {
        SupportedLaunchers::HeroicGamesGOG
    }

    /// Asks the file system whether the launcher is there. The answer
    /// depends on what is on disk, so nothing is stated of it.
    pub fn is_detected(&self) -> bool {
        probe(self.path_gog_installed_games.as_str(), PathKind::Any)
    }

    /// Whether this is the launcher for the given directories.
    pub open spec fn is_located(
        self,
        path_home: Seq<char>,
        path_config: Seq<char>,
        native_found: bool,
    ) -> bool {
        let path_heroic_config = heroic_config_path(path_home, path_config, native_found);
        &&& self.is_using_flatpak == !native_found
        &&& self.path_gog_installed_games@ == joined(path_heroic_config, "gog_store/installed.json"@)
        &&& self.path_icons@ == joined(path_heroic_config, "icons"@)
    }

    /// The launcher below the given configuration directory of Heroic.
    fn below(path_heroic_config: &str, is_using_flatpak: bool) -> (r: Self)
        ensures
            r.is_using_flatpak == is_using_flatpak,
            r.path_gog_installed_games@ == joined(path_heroic_config@, "gog_store/installed.json"@),
            r.path_icons@ == joined(path_heroic_config@, "icons"@),
    {
        HeroicGOG {
            path_gog_installed_games: join_path(path_heroic_config, "gog_store/installed.json"),
            path_icons: join_path(path_heroic_config, "icons"),
            is_using_flatpak,
        }
    }

    /// The launcher, once it is known whether the native configuration
    /// directory of Heroic exists.
    pub fn located(path_home: &str, path_config: &str, native_found: bool) -> (r: Self)
        ensures
            r.is_located(path_home@, path_config@, native_found),
    {
        let (path_heroic_config, is_using_flatpak) = heroic_config_path_for(
            path_home,
            path_config,
            native_found,
        );
        Self::below(path_heroic_config.as_str(), is_using_flatpak)
    }

    /// Looks for the configuration directory of Heroic and falls back to
    /// the flatpak's where it is missing.
    pub fn new(path_home: &str, path_config: &str) -> (r: Self)
        ensures
            r.is_located(path_home@, path_config@, true) || r.is_located(
                path_home@,
                path_config@,
                false,
            ),
    {
        let (path_heroic_config, is_using_flatpak) = get_heroic_config_path(
            path_home,
            path_config,
        );
        Self::below(path_heroic_config.as_str(), is_using_flatpak)
    }

    /// Parse all relevant games' data from GOG's `installed.json`
    pub fn parse_gog_installed(file_content: &str) -> (r: Vec<ParsableGOGInstalledData>)
        ensures
            views(r@) == scan_all(&InstalledScanner, file_content@),
    {
        parse_all_games_from_library(&InstalledScanner, file_content)
    }

    /// The games of GOG: one for each record, in its order, each built from
    /// what the file system holds for it.
    pub fn get_detected_games(&self, parsed_data: &Vec<ParsableGOGInstalledData>) -> (r: Vec<Game>)
        ensures
            r.len() == parsed_data.len(),
            forall|i: int|
                0 <= i < r.len() ==> is_game_of(
                    #[trigger] r[i]@,
                    Self::store(),
                    self.path_icons@,
                    self.is_using_flatpak,
                    parsed_data[i]@,
                ),
    {
        games_from(
            LAUNCHER,
            "gog",
            ".png",
            true,
            self.path_icons.as_str(),
            self.is_using_flatpak,
            parsed_data,
        )
    }
}

} // verus!
