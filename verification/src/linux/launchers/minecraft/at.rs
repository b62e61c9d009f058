// PATHS:
// - ~/.local/share/atlauncher/
//! ATLauncher: one game for each instance whose `instance.json` names it.

use vstd::prelude::*;
use crate::data::{Game, GameView, SupportedLaunchers};
use crate::linux::launchers::minecraft::{
    get_instance_launch_command, get_minecraft_title, instance_launch_command, minecraft_title,
};
use crate::parsers::{scan_value_json, value_json};
use crate::text::{to_chars, to_text, views};
use crate::utils::paths::{
    image_path_of, join_path, joined, keep_if, pick_image_path, picked_image_path, probe, PathKind,
};

verus! {

/// What the `instance.json` of an instance says.
#[derive(Debug)]
pub struct ParsableInstanceConfigData {
    pub title: String,
}

/// The source of the games that this module detects.
pub const LAUNCHER: SupportedLaunchers = SupportedLaunchers::MinecraftAT;

/// The title of an instance: the value of `name` in its `instance.json`.
pub open spec fn instance_config(content: Seq<char>) -> Option<(Seq<char>, Seq<char>)> {
    value_json(content, "name"@)
}

/// Used for parsing relevant instance's data from the given `instance.json` file's contents
pub fn parse_instance_config(file_content: &str) -> (r: Option<ParsableInstanceConfigData>)
    ensures
        match r {
            Some(data) => instance_config(file_content@) matches Some((_, title)) && title
                == data.title@,
            None => instance_config(file_content@) is None,
        },
{
    let content = to_chars(file_content);
    let key = to_chars("name");
    // TITLE
    match scan_value_json(content.as_slice(), key.as_slice()) {
        Some((_, title)) => Some(ParsableInstanceConfigData { title: to_text(title) }),
        None => None,
    }
}

/// The launcher: where its instances are, and whether it runs in a flatpak.
#[derive(Debug)]
pub struct MinecraftAT {
    pub path_instances: String,
    pub is_using_flatpak: bool,
}

/// What was found on disk for one instance.
pub struct Found {
    /// The images named `instance`: `png`, `jpg`, `jpeg`.
    pub icon: (bool, bool, bool),
    pub game_dir: bool,
}

impl MinecraftAT {
    /// The source of the games of this launcher.
    pub fn get_launcher_type(&self) -> (r: SupportedLaunchers)
        ensures
            r == SupportedLaunchers::MinecraftAT,
    {
        SupportedLaunchers::MinecraftAT
    }

    /// Asks the file system whether the launcher is there. The answer
    /// depends on what is on disk, so nothing is stated of it.
    pub fn is_detected(&self) -> bool {
        probe(self.path_instances.as_str(), PathKind::Dir)
    }

    /// Whether this is the launcher for the given directories.
    pub open spec fn is_located(self, path_home: Seq<char>, path_data: Seq<char>, native_found: bool) -> bool {
        &&& self.is_using_flatpak == !native_found
        &&& self.path_instances@ == joined(
            if native_found {
                joined(path_data, "atlauncher"@)
            } else {
                joined(path_home, ".var/app/com.atlauncher.ATLauncher/data"@)
            },
            "instances"@,
        )
    }

    /// The launcher, once it is known whether the native directory exists.
    pub fn located(path_home: &str, path_data: &str, native_found: bool) -> (r: Self)
        ensures
            r.is_located(path_home@, path_data@, native_found),
    {
        let path_root = if native_found {
            join_path(path_data, "atlauncher")
        } else {
            join_path(path_home, ".var/app/com.atlauncher.ATLauncher/data")
        };
        MinecraftAT {
            path_instances: join_path(path_root.as_str(), "instances"),
            is_using_flatpak: !native_found,
        }
    }

    /// Looks for the directory of ATLauncher and falls back to the
    /// flatpak's where it is missing.
    pub fn new(path_home: &str, path_data: &str) -> (r: Self)
        ensures
            r.is_located(path_home@, path_data@, true) || r.is_located(
                path_home@,
                path_data@,
                false,
            ),
    {
        let path_root = join_path(path_data, "atlauncher");
        let native_found = probe(path_root.as_str(), PathKind::Dir);
        Self::located(path_home, path_data, native_found)
    }

    /// The game of the instance in `instance_path` with the title `title`,
    /// given what was found on disk. An instance has no box art.
    pub open spec fn game_of(self, instance_path: Seq<char>, title: Seq<char>, found: Found) -> GameView {
        GameView {
            title: minecraft_title(title),
            path_icon: picked_image_path(
                instance_path,
                "instance"@,
                found.icon.0,
                found.icon.1,
                found.icon.2,
            ),
            path_box_art: None,
            path_game_dir: if found.game_dir {
                Some(instance_path)
            } else {
                None
            },
            launch_command: instance_launch_command(
                "atlauncher"@,
                "com.atlauncher.ATLauncher"@,
                title,
                self.is_using_flatpak,
            ),
            source: SupportedLaunchers::MinecraftAT,
        }
    }

    /// `game` is the game of the instance, whatever was found on disk.
    pub open spec fn is_game_of(self, game: GameView, instance_path: Seq<char>, title: Seq<char>) -> bool {
        exists|found: Found| game == self.game_of(instance_path, title, found)
    }

    /// Builds the game of an instance from what was found on disk.
    pub fn game_from(&self, instance_path: &str, data: &ParsableInstanceConfigData, found: Found) -> (r:
        Game)
        ensures
            r@ == self.game_of(instance_path@, data.title@, found),
    {
        Game {
            title: get_minecraft_title(data.title.as_str()),
            launch_command: get_instance_launch_command(
                "atlauncher",
                "com.atlauncher.ATLauncher",
                data.title.as_str(),
                self.is_using_flatpak,
            ),
            // No box art provided
            path_box_art: None,
            path_game_dir: keep_if(instance_path.to_owned(), found.game_dir),
            path_icon: pick_image_path(
                instance_path,
                "instance",
                found.icon.0,
                found.icon.1,
                found.icon.2,
            ),
            source: LAUNCHER,
        }
    }

    /// The instances that have a title: of each instance, given as its
    /// directory and the text of its `instance.json`, the directory and the
    /// title; an instance whose file names no title is passed over.
    pub open spec fn titled_instances(instances: Seq<(Seq<char>, Seq<char>)>) -> Seq<
        (Seq<char>, Seq<char>),
    >
        decreases instances.len(),
    {
        if instances.len() == 0 {
            Seq::empty()
        } else {
            let before = Self::titled_instances(instances.drop_last());
            match instance_config(instances.last().1) {
                Some((_, title)) => before.push((instances.last().0, title)),
                None => before,
            }
        }
    }

    /// The games of ATLauncher, from the directories of the instances and
    /// the texts of their `instance.json`: one game for each instance that
    /// has a title, in the order given, each built from what the file system
    /// holds for it.
    pub fn get_detected_games(&self, instances: &Vec<(String, String)>) -> (r: Vec<Game>)
        ensures
            r.len() == Self::titled_instances(views(instances@)).len(),
            forall|i: int|
                0 <= i < r.len() ==> self.is_game_of(
                    #[trigger] r[i]@,
                    Self::titled_instances(views(instances@))[i].0,
                    Self::titled_instances(views(instances@))[i].1,
                ),
    {
        let mut games: Vec<Game> = Vec::new();
        let mut i: usize = 0;
        proof {
            assert(views(instances@).take(0) =~= Seq::empty());
        }
        while i < instances.len()
            invariant
                i <= instances.len(),
                games.len() == Self::titled_instances(views(instances@).take(i as int)).len(),
                forall|k: int|
                    0 <= k < games.len() ==> self.is_game_of(
                        #[trigger] games[k]@,
                        Self::titled_instances(views(instances@).take(i as int))[k].0,
                        Self::titled_instances(views(instances@).take(i as int))[k].1,
                    ),
            decreases instances.len() - i,
        {
            proof {
                let upto = views(instances@).take(i + 1);
                assert(upto.drop_last() =~= views(instances@).take(i as int));
                assert(upto.last() == instances[i as int]@);
            }
            let instance_path = instances[i].0.as_str();
            match parse_instance_config(instances[i].1.as_str()) {
                Some(data) => {
                    let found = Found {
                        icon: (
                            probe(
                                image_path_of(instance_path, "instance", "png").as_str(),
                                PathKind::File,
                            ),
                            probe(
                                image_path_of(instance_path, "instance", "jpg").as_str(),
                                PathKind::File,
                            ),
                            probe(
                                image_path_of(instance_path, "instance", "jpeg").as_str(),
                                PathKind::File,
                            ),
                        ),
                        game_dir: probe(instance_path, PathKind::Dir),
                    };
                    let game = self.game_from(instance_path, &data, found);
                    proof {
                        assert(self.is_game_of(game@, instance_path@, data.title@));
                    }
                    games.push(game);
                },
                None => {},
            }
            i += 1;
        }
        proof {
            assert(views(instances@).take(instances@.len() as int) =~= views(instances@));
        }
        games
    }
}

} // verus!
