// PATHS:
// - ~/.local/share/PrismLauncher/
//! Prism Launcher: one game for each instance in the directory that the
//! configuration file names.

use vstd::prelude::*;
use crate::data::{Game, GameView, SupportedLaunchers};
use crate::error::GamesParsingError;
use crate::linux::launchers::minecraft::{
    get_instance_launch_command, get_minecraft_title, instance_launch_command, minecraft_title,
};
use crate::parsers::{scan_value_cfg, value_cfg};
use crate::text::{text_of, to_chars, to_text};
use crate::utils::paths::{join_path, joined, keep_if, probe, PathKind};

verus! {

/// The source of the games that this module detects.
pub const LAUNCHER: SupportedLaunchers = SupportedLaunchers::MinecraftPrism;

/// What the configuration file of the launcher says.
#[derive(Debug)]
pub struct ParsableConfigData {
    pub path_instances: String,
}

/// The launcher: its root, its configuration file, and whether it runs in a flatpak.
#[derive(Debug)]
pub struct MinecraftPrism {
    pub path_root: String,
    pub path_config: String,
    pub is_using_flatpak: bool,
}

/// What was found on disk for one instance.
pub struct Found {
    pub game_dir: bool,
    /// `icon.png` in the instance, in its `minecraft` and in its
    /// `.minecraft`.
    pub icons: (bool, bool, bool),
}

/// The icon of an instance: the first of `icon.png`, `minecraft/icon.png`
/// and `.minecraft/icon.png` that exists.
pub open spec fn path_icon_of(path_instance: Seq<char>, icons: (bool, bool, bool)) -> Option<
    Seq<char>,
> {
    if icons.0 {
        Some(joined(path_instance, "icon.png"@))
    } else if icons.1 {
        Some(joined(joined(path_instance, "minecraft"@), "icon.png"@))
    } else if icons.2 {
        Some(joined(joined(path_instance, ".minecraft"@), "icon.png"@))
    } else {
        None
    }
}

/// Picks the icon of an instance from what was found on disk.
pub fn pick_path_icon(path_instance: &str, icons: (bool, bool, bool)) -> (r: Option<String>)
    ensures
        text_of(r) == path_icon_of(path_instance@, icons),
{
    if icons.0 {
        Some(join_path(path_instance, "icon.png"))
    } else if icons.1 {
        Some(join_path(join_path(path_instance, "minecraft").as_str(), "icon.png"))
    } else if icons.2 {
        Some(join_path(join_path(path_instance, ".minecraft").as_str(), "icon.png"))
    } else {
        None
    }
}

/// Asks the file system which icons of an instance exist.
pub fn look_for_icons(path_instance: &str) -> (bool, bool, bool) {
    (
        probe(join_path(path_instance, "icon.png").as_str(), PathKind::File),
        probe(
            join_path(join_path(path_instance, "minecraft").as_str(), "icon.png").as_str(),
            PathKind::File,
        ),
        probe(
            join_path(join_path(path_instance, ".minecraft").as_str(), "icon.png").as_str(),
            PathKind::File,
        ),
    )
}

/// The icon of an instance whose directory exists, if it has one.
pub fn get_path_icon(path_instance: Option<&String>) -> (r: Option<String>)
    ensures
        match path_instance {
            Some(path_instance) => exists|icons: (bool, bool, bool)|
                text_of(r) == #[trigger] path_icon_of(path_instance@, icons),
            None => r is None,
        },
{
    match path_instance {
        Some(path_instance) => {
            let icons = look_for_icons(path_instance.as_str());
            let r = pick_path_icon(path_instance.as_str(), icons);
            proof {
                let _ = path_icon_of(path_instance@, icons);
            }
            r
        },
        None => None,
    }
}

impl MinecraftPrism {
    /// The source of the games of this launcher.
    pub fn get_launcher_type(&self) -> (r: SupportedLaunchers)
        ensures
            r == SupportedLaunchers::MinecraftPrism,
    {
        SupportedLaunchers::MinecraftPrism
    }

    /// Asks the file system whether the launcher is there. The answer
    /// depends on what is on disk, so nothing is stated of it.
    pub fn is_detected(&self) -> bool {
        probe(self.path_config.as_str(), PathKind::File)
    }

    /// Whether this is the launcher for the given directories.
    pub open spec fn is_located(self, path_home: Seq<char>, path_data: Seq<char>, native_found: bool) -> bool {
        &&& self.is_using_flatpak == !native_found
        &&& self.path_root@ == if native_found {
            joined(path_data, "PrismLauncher"@)
        } else {
            joined(path_home, ".var/app/org.prismlauncher.PrismLauncher/data/PrismLauncher"@)
        }
        &&& self.path_config@ == joined(self.path_root@, "prismlauncher.cfg"@)
    }

    /// The launcher, once it is known whether the native directory exists.
    pub fn located(path_home: &str, path_data: &str, native_found: bool) -> (r: Self)
        ensures
            r.is_located(path_home@, path_data@, native_found),
    {
        let path_root = if native_found {
            join_path(path_data, "PrismLauncher")
        } else {
            join_path(path_home, ".var/app/org.prismlauncher.PrismLauncher/data/PrismLauncher")
        };
        let path_config = join_path(path_root.as_str(), "prismlauncher.cfg");
        MinecraftPrism { path_root, path_config, is_using_flatpak: !native_found }
    }

    /// Looks for the directory of Prism Launcher and falls back to the
    /// flatpak's where it is missing.
    pub fn new(path_home: &str, path_data: &str) -> (r: Self)
        ensures
            r.is_located(path_home@, path_data@, true) || r.is_located(
                path_home@,
                path_data@,
                false,
            ),
    {
        let path_root = join_path(path_data, "PrismLauncher");
        let native_found = probe(path_root.as_str(), PathKind::Dir);
        Self::located(path_home, path_data, native_found)
    }

    /// The directory of the instances: the value of `InstanceDir` in the
    /// configuration file, taken below the root of the launcher unless it
    /// is absolute.
    pub open spec fn instances_dir(path_root: Seq<char>, content: Seq<char>) -> Option<Seq<char>> {
        match value_cfg(content, "InstanceDir"@) {
            Some((_, instances_dir)) => Some(joined(path_root, instances_dir)),
            None => None,
        }
    }

    /// Reads the directory of the instances from the text of the
    /// configuration file. A file without the key `InstanceDir` gives the
    /// error `Nom`.
    pub fn parse_prism_config(&self, file_content: &str) -> (r: Result<
        ParsableConfigData,
        GamesParsingError,
    >)
        ensures
            match Self::instances_dir(self.path_root@, file_content@) {
                Some(path_instances) => r matches Ok(data) && data.path_instances@
                    == path_instances,
                None => r matches Err(GamesParsingError::Nom(what)) && what@ == "InstanceDir"@,
            },
    {
        let content = to_chars(file_content);
        // INSTANCES DIR
        let instances_id = to_chars("InstanceDir");
        match scan_value_cfg(content.as_slice(), instances_id.as_slice()) {
            Some((_, instances_dir)) => {
                let instances_dir = to_text(instances_dir);
                Ok(
                    ParsableConfigData {
                        path_instances: join_path(self.path_root.as_str(), instances_dir.as_str()),
                    },
                )
            },
            None => Err(GamesParsingError::Nom("InstanceDir".to_owned())),
        }
    }

    /// The game of the instance `title` below `path_instances`, given what
    /// was found on disk. An instance has no box art, and an icon only
    /// where its directory exists.
    pub open spec fn game_of(self, path_instances: Seq<char>, title: Seq<char>, found: Found) -> GameView {
        GameView {
            title: minecraft_title(title),
            path_icon: if found.game_dir {
                path_icon_of(joined(path_instances, title), found.icons)
            } else {
                None
            },
            path_box_art: None,
            path_game_dir: if found.game_dir {
                Some(joined(path_instances, title))
            } else {
                None
            },
            launch_command: instance_launch_command(
                "prismlauncher"@,
                "org.prismlauncher.PrismLauncher"@,
                title,
                self.is_using_flatpak,
            ),
            source: SupportedLaunchers::MinecraftPrism,
        }
    }

    /// `game` is the game of the instance, whatever was found on disk.
    pub open spec fn is_game_of(self, game: GameView, path_instances: Seq<char>, title: Seq<char>) -> bool {
        exists|found: Found| game == self.game_of(path_instances, title, found)
    }

    /// Builds the game of an instance from what was found on disk.
    pub fn game_from(&self, path_instances: &str, title: &str, found: Found) -> (r: Game)
        ensures
            r@ == self.game_of(path_instances@, title@, found),
    {
        let path_instance = join_path(path_instances, title);
        let path_icon = if found.game_dir {
            pick_path_icon(path_instance.as_str(), found.icons)
        } else {
            None
        };
        Game {
            title: get_minecraft_title(title),
            launch_command: get_instance_launch_command(
                "prismlauncher",
                "org.prismlauncher.PrismLauncher",
                title,
                self.is_using_flatpak,
            ),
            // No box art provided
            path_box_art: None,
            path_game_dir: keep_if(path_instance, found.game_dir),
            path_icon,
            source: LAUNCHER,
        }
    }

    /// Whether the entry `name` of the directory of the instances is an
    /// instance: a directory that holds `instance.cfg`.
    pub fn is_instance(path_instances: &str, name: &str) -> bool {
        let path = join_path(path_instances, name);
        probe(path.as_str(), PathKind::Dir) && probe(
            join_path(path.as_str(), "instance.cfg").as_str(),
            PathKind::File,
        )
    }

    /// The games of Prism Launcher, from the names of the instances: one
    /// game for each, in the order given, each built from what the file
    /// system holds for it.
    pub fn get_detected_games(&self, path_instances: &str, titles: &Vec<String>) -> (r: Vec<Game>)
        ensures
            r.len() == titles.len(),
            forall|i: int|
                0 <= i < r.len() ==> self.is_game_of(#[trigger] r[i]@, path_instances@, titles[i]@),
    {
        let mut games: Vec<Game> = Vec::new();
        let mut i: usize = 0;
        while i < titles.len()
            invariant
                i <= titles.len(),
                games.len() == i,
                forall|k: int|
                    0 <= k < i ==> self.is_game_of(
                        #[trigger] games[k]@,
                        path_instances@,
                        titles[k]@,
                    ),
            decreases titles.len() - i,
        {
            let title = titles[i].as_str();
            let path_instance = join_path(path_instances, title);
            let found = Found {
                game_dir: probe(path_instance.as_str(), PathKind::Dir),
                icons: look_for_icons(path_instance.as_str()),
            };
            let game = self.game_from(path_instances, title, found);
            proof {
                assert(self.is_game_of(game@, path_instances@, titles[i as int]@));
            }
            games.push(game);
            i += 1;
        }
        games
    }
}

} // verus!
