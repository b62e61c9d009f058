//! Heroic Games Launcher: the games that the user added by hand.

use vstd::prelude::*;
use crate::data::{Game, SupportedLaunchers};
use crate::linux::launchers::heroic::{
    games_from, get_heroic_config_path, heroic_config_path, heroic_config_path_for, is_game_of,
    parse_all_games_from_library, LibraryRecord, ParsableLibraryData, Store,
};
use crate::parsers::{
    lemma_value_json_shrinks, scan_value_json, scan_value_json_unquoted, step, value_json,
    value_json_unquoted,
};
use crate::scanner::{scan_all, RecordScanner};
use crate::text::{is_proper_suffix, lemma_suffix_of_suffix, same_text, to_chars, to_text, views};
use crate::utils::paths::{join_path, joined, probe, PathKind};
use crate::utils::strings::{clean_title_chars, cleaned_title};

verus! {

/// The source of the games that this module detects.
pub const LAUNCHER: SupportedLaunchers = SupportedLaunchers::HeroicGamesSideload;

/// The next installed game of the library file of side-loaded apps. A game
/// is read from the value of `app_name` on; one whose `is_installed` reads
/// `false` is passed over, and the search goes on after its `app_name`. Of
/// an installed game the values of `title` and then `folder_name` are
/// taken, the fields standing in another order here than in the files of
/// the stores. The title is cleaned.
pub open spec fn game_from_sideload_library(content: Seq<char>) -> Option<
    (Seq<char>, LibraryRecord),
>
    decreases content.len(),
{
    match value_json(content, "app_name"@) {
        Some((checkpoint, app_id)) => match value_json_unquoted(checkpoint, "is_installed"@) {
            Some((_, is_installed)) => if is_installed == "false"@ {
                if checkpoint.len() < content.len() {
                    game_from_sideload_library(checkpoint)
                } else {
                    None
                }
            } else {
                match value_json(checkpoint, "title"@) {
                    Some((after_title, title)) => match value_json(after_title, "folder_name"@) {
                        Some((rest, install_path)) => Some(
                            (
                                rest,
                                LibraryRecord { app_id, title: cleaned_title(title), install_path },
                            ),
                        ),
                        None => None,
                    },
                    None => None,
                }
            },
            None => None,
        },
        None => None,
    }
}

/// A side-loaded game is found after at least one character.
pub proof fn lemma_game_from_sideload_library_shrinks(content: Seq<char>)
    ensures
        game_from_sideload_library(content) matches Some((rest, _)) ==> is_proper_suffix(
            rest,
            content,
        ),
    decreases content.len(),
{
    if game_from_sideload_library(content) is Some {
        lemma_value_json_shrinks(content, "app_name"@);
        let checkpoint = (value_json(content, "app_name"@)->0).0;
        let installed = value_json_unquoted(checkpoint, "is_installed"@)->0;
        if installed.1 == "false"@ {
            lemma_game_from_sideload_library_shrinks(checkpoint);
            let found = game_from_sideload_library(checkpoint)->0;
            lemma_suffix_of_suffix(found.0, checkpoint, content);
        } else {
            lemma_value_json_shrinks(checkpoint, "title"@);
            let after_title = (value_json(checkpoint, "title"@)->0).0;
            lemma_value_json_shrinks(after_title, "folder_name"@);
            let rest = (value_json(after_title, "folder_name"@)->0).0;
            lemma_suffix_of_suffix(after_title, checkpoint, content);
            lemma_suffix_of_suffix(rest, after_title, content);
        }
    }
}

/// Utility function which parses a single game from the Heroic Games side-load apps `library.json` file
///
/// A separate parser function is necessary for this library file because the required fields are
/// listed in a different order to the Nile and Legendary library files.
pub fn scan_game_from_sideload_library(content: &[char]) -> (r: Option<
    (usize, ParsableLibraryData),
>)
    ensures
        match r {
            Some((consumed, data)) => consumed <= content@.len() && game_from_sideload_library(
                content@,
            ) == Some((content@.skip(consumed as int), data@)),
            None => game_from_sideload_library(content@) is None,
        },
{
    let key_app_name = to_chars("app_name");
    let key_is_installed = to_chars("is_installed");
    let key_title = to_chars("title");
    let key_folder_name = to_chars("folder_name");
    let not_installed = to_chars("false");
    let mut pos: usize = 0;
    proof {
        assert(content@.skip(0) =~= content@);
    }
    loop
        invariant
            pos <= content@.len(),
            key_app_name@ == "app_name"@,
            key_is_installed@ == "is_installed"@,
            key_title@ == "title"@,
            key_folder_name@ == "folder_name"@,
            not_installed@ == "false"@,
            game_from_sideload_library(content@) == game_from_sideload_library(
                content@.skip(pos as int),
            ),
        decreases content@.len() - pos,
    {
        let (_, here) = step(content, pos, 0);
        proof {
            lemma_value_json_shrinks(here@, "app_name"@);
        }
        // ID
        let (consumed, app_id) = match scan_value_json(here, key_app_name.as_slice()) {
            Some(found) => found,
            None => {
                return None;
            },
        };
        // Keep checkpoint of file content because `is_installed` comes after the `install_path`
        // and `title` may come before install info
        let (checkpoint, rest) = step(content, pos, consumed);
        // IS_INSTALLED
        let is_installed = match scan_value_json_unquoted(rest, key_is_installed.as_slice()) {
            Some((_, is_installed)) => is_installed,
            None => {
                return None;
            },
        };
        // Continue to next game if not installed
        if same_text(is_installed, not_installed.as_slice()) {
            pos = checkpoint;
            continue ;
        }
        // TITLE
        let (consumed, title) = match scan_value_json(rest, key_title.as_slice()) {
            Some(found) => found,
            None => {
                return None;
            },
        };
        let (after_title, rest) = step(content, checkpoint, consumed);
        // INSTALL_PATH
        let (consumed, install_path) = match scan_value_json(rest, key_folder_name.as_slice()) {
            Some(found) => found,
            None => {
                return None;
            },
        };
        let (end, _) = step(content, after_title, consumed);
        let title = clean_title_chars(title);
        return Some(
            (
                end,
                ParsableLibraryData {
                    app_id: to_text(app_id),
                    title: to_text(title.as_slice()),
                    install_path: to_text(install_path),
                },
            ),
        );
    }
}

/// Reads the installed games of the library file of side-loaded apps, one
/// after the other.
pub struct SideloadScanner;

impl RecordScanner for SideloadScanner {
    type Record = ParsableLibraryData;

    open spec fn extract(&self, text: Seq<char>) -> Option<(Seq<char>, LibraryRecord)> {
        game_from_sideload_library(text)
    }

    proof fn extract_shrinks(&self, text: Seq<char>) {
        lemma_game_from_sideload_library_shrinks(text);
    }

    fn extract_next(&self, text: &[char]) -> (r: Option<(usize, ParsableLibraryData)>) {
        scan_game_from_sideload_library(text)
    }
}

/// The games added by hand: where their files are, and whether Heroic runs in a flatpak.
#[derive(Debug)]
pub struct HeroicSideload {
    pub path_sideload_library: String,
    pub path_icons: String,
    pub is_using_flatpak: bool,
}

impl HeroicSideload {
    /// How this store names itself and keeps its images.
    pub open spec fn store() -> Store {
        Store {
            launcher: SupportedLaunchers::HeroicGamesSideload,
            source: "sideload"@,
            image_extension: ".jpg"@,
            image_is_icon: false,
        }
    }

    /// The source of the games of this launcher.
    pub fn get_launcher_type(&self) -> (r: SupportedLaunchers)
        ensures
            r == SupportedLaunchers::HeroicGamesSideload,
    {
        SupportedLaunchers::HeroicGamesSideload
    }

    /// Asks the file system whether the launcher is there. The answer
    /// depends on what is on disk, so nothing is stated of it.
    pub fn is_detected(&self) -> bool {
        probe(self.path_sideload_library.as_str(), PathKind::Any)
    }

    /// Whether this is the launcher for the given directories.
    pub open spec fn is_located(
        self,
        path_home: Seq<char>,
        path_config: Seq<char>,
        native_found: bool,
    ) -> bool {
        let path_heroic_config = heroic_config_path(path_home, path_config, native_found);
        &&& self.is_using_flatpak == !native_found
        &&& self.path_sideload_library@ == joined(path_heroic_config, "sideload_apps/library.json"@)
        &&& self.path_icons@ == joined(path_heroic_config, "icons"@)
    }

    /// The launcher below the given configuration directory of Heroic.
    fn below(path_heroic_config: &str, is_using_flatpak: bool) -> (r: Self)
        ensures
            r.is_using_flatpak == is_using_flatpak,
            r.path_sideload_library@ == joined(path_heroic_config@, "sideload_apps/library.json"@),
            r.path_icons@ == joined(path_heroic_config@, "icons"@),
    {
        HeroicSideload {
            path_sideload_library: join_path(path_heroic_config, "sideload_apps/library.json"),
            path_icons: join_path(path_heroic_config, "icons"),
            is_using_flatpak,
        }
    }

    /// The launcher, once it is known whether the native configuration
    /// directory of Heroic exists.
    pub fn located(path_home: &str, path_config: &str, native_found: bool) -> (r: Self)
        ensures
            r.is_located(path_home@, path_config@, native_found),
    {
        let (path_heroic_config, is_using_flatpak) = heroic_config_path_for(
            path_home,
            path_config,
            native_found,
        );
        Self::below(path_heroic_config.as_str(), is_using_flatpak)
    }

    /// Looks for the configuration directory of Heroic and falls back to
    /// the flatpak's where it is missing.
    pub fn new(path_home: &str, path_config: &str) -> (r: Self)
        ensures
            r.is_located(path_home@, path_config@, true) || r.is_located(
                path_home@,
                path_config@,
                false,
            ),
    {
        let (path_heroic_config, is_using_flatpak) = get_heroic_config_path(
            path_home,
            path_config,
        );
        Self::below(path_heroic_config.as_str(), is_using_flatpak)
    }

    /// Parse all relevant games' data from `library.json`
    pub fn parse_sideload_library(library_file_content: &str) -> (r: Vec<ParsableLibraryData>)
        ensures
            views(r@) == scan_all(&SideloadScanner, library_file_content@),
    {
        parse_all_games_from_library(&SideloadScanner, library_file_content)
    }

    /// The games added by hand: one for each record, in its order, each
    /// built from what the file system holds for it.
    pub fn get_detected_games(&self, parsed_data: &Vec<ParsableLibraryData>) -> (r: Vec<Game>)
        ensures
            r.len() == parsed_data.len(),
            forall|i: int|
                0 <= i < r.len() ==> is_game_of(
                    #[trigger] r[i]@,
                    Self::store(),
                    self.path_icons@,
                    self.is_using_flatpak,
                    parsed_data[i]@,
                ),
    {
        games_from(
            LAUNCHER,
            "sideload",
            ".jpg",
            false,
            self.path_icons.as_str(),
            self.is_using_flatpak,
            parsed_data,
        )
    }
}

} // verus!
