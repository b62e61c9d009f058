//! Heroic Games Launcher: the games of Amazon Prime Gaming, which the Nile library file lists.

use vstd::prelude::*;
use crate::data::{Game, SupportedLaunchers};
use crate::linux::launchers::heroic::{
    games_from, get_heroic_config_path, heroic_config_path, heroic_config_path_for, is_game_of,
    parse_all_games_from_library_common, LibraryScanner, ParsableLibraryData, Store,
};
use crate::scanner::scan_all;
use crate::text::views;
use crate::utils::paths::{join_path, joined, probe, PathKind};

verus! {

/// The source of the games that this module detects.
pub const LAUNCHER: SupportedLaunchers = SupportedLaunchers::HeroicGamesAmazon;

/// The store of Amazon Prime Gaming: where its files are, and whether Heroic runs in a flatpak.
#[derive(Debug)]
pub struct HeroicAmazon {
    pub path_nile_library: String,
    pub path_icons: String,
    pub is_using_flatpak: bool,
}

impl HeroicAmazon {
    /// How this store names itself and keeps its images.
    pub open spec fn store() -> Store {
        Store {
            launcher: SupportedLaunchers::HeroicGamesAmazon,
            source: "nile"@,
            image_extension: ".jpg"@,
            image_is_icon: false,
        }
    }

    /// The source of the games of this launcher.
    pub fn get_launcher_type(&self) -> (r: SupportedLaunchers)
        ensures
            r == SupportedLaunchers::HeroicGamesAmazon,
    {
        SupportedLaunchers::HeroicGamesAmazon
    }

    /// Asks the file system whether the launcher is there. The answer
    /// depends on what is on disk, so nothing is stated of it.
    pub fn is_detected(&self) -> bool {
        probe(self.path_nile_library.as_str(), PathKind::Any)
    }

    /// Whether this is the launcher for the given directories.
    pub open spec fn is_located(
        self,
        path_home: Seq<char>,
        path_config: Seq<char>,
        native_found: bool,
    ) -> bool {
        let path_heroic_config = heroic_config_path(path_home, path_config, native_found);
        &&& self.is_using_flatpak == !native_found
        &&& self.path_nile_library@ == joined(path_heroic_config, "store_cache/nile_library.json"@)
        &&& self.path_icons@ == joined(path_heroic_config, "icons"@)
    }

    /// The launcher below the given configuration directory of Heroic.
    fn below(path_heroic_config: &str, is_using_flatpak: bool) -> (r: Self)
        ensures
            r.is_using_flatpak == is_using_flatpak,
            r.path_nile_library@ == joined(path_heroic_config@, "store_cache/nile_library.json"@),
            r.path_icons@ == joined(path_heroic_config@, "icons"@),
    {
        HeroicAmazon {
            path_nile_library: join_path(path_heroic_config, "store_cache/nile_library.json"),
            path_icons: join_path(path_heroic_config, "icons"),
            is_using_flatpak,
        }
    }

    /// The launcher, once it is known whether the native configuration
    /// directory of Heroic exists.
    pub fn located(path_home: &str, path_config: &str, native_found: bool) -> (r: Self)
        ensures
            r.is_located(path_home@, path_config@, native_found),
    {
        let (path_heroic_config, is_using_flatpak) = heroic_config_path_for(
            path_home,
            path_config,
            native_found,
        );
        Self::below(path_heroic_config.as_str(), is_using_flatpak)
    }

    /// Looks for the configuration directory of Heroic and falls back to
    /// the flatpak's where it is missing.
    pub fn new(path_home: &str, path_config: &str) -> (r: Self)
        ensures
            r.is_located(path_home@, path_config@, true) || r.is_located(
                path_home@,
                path_config@,
                false,
            ),
    {
        let (path_heroic_config, is_using_flatpak) = get_heroic_config_path(
            path_home,
            path_config,
        );
        Self::below(path_heroic_config.as_str(), is_using_flatpak)
    }

    /// Parse all relevant games' data from `nile_library.json`
    pub fn parse_nile_library(library_file_content: &str) -> (r: Vec<ParsableLibraryData>)
        ensures
            views(r@) == scan_all(&LibraryScanner, library_file_content@),
    {
        parse_all_games_from_library_common(library_file_content)
    }

    /// The games of the store: one for each record, in its order, each
    /// built from what the file system holds for it.
    pub fn get_detected_games(&self, parsed_data: &Vec<ParsableLibraryData>) -> (r: Vec<Game>)
        ensures
            r.len() == parsed_data.len(),
            forall|i: int|
                0 <= i < r.len() ==> is_game_of(
                    #[trigger] r[i]@,
                    Self::store(),
                    self.path_icons@,
                    self.is_using_flatpak,
                    parsed_data[i]@,
                ),
    {
        games_from(
            LAUNCHER,
            "nile",
            ".jpg",
            false,
            self.path_icons.as_str(),
            self.is_using_flatpak,
            parsed_data,
        )
    }
}

} // verus!
