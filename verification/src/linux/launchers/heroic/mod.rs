//! Heroic Games Launcher: what its four stores have in common.

pub mod amazon;
pub mod epic;
pub mod gog;
pub mod sideload;

use vstd::prelude::*;
use vstd::string::*;
use crate::data::{Game, GameView, SupportedLaunchers};
use crate::parsers::{
    lemma_value_json_shrinks, lemma_value_json_unquoted_shrinks, scan_value_json,
    scan_value_json_unquoted, step, value_json, value_json_unquoted,
};
use crate::scanner::{scan_all, scan_records, RecordScanner};
use crate::text::{is_proper_suffix, lemma_suffix_of_suffix, same_text, to_chars, to_text, views};
use crate::utils::commands::{
    flatpak_args_of, get_launch_command, get_launch_command_flatpak, no_env_vars, no_env_vars_view,
    LaunchCommandView,
};
use crate::utils::paths::{join_path, joined, keep_if, probe, PathKind};
use crate::utils::strings::{clean_title_chars, cleaned_title};

verus! {

/// Useful data about a game which is parseable from a Heroic Games Launcher library file
#[derive(Debug)]
pub struct ParsableLibraryData {
    pub app_id: String,
    pub install_path: String,
    pub title: String,
}

/// What a library file says of one game, as text.
pub struct LibraryRecord {
    pub app_id: Seq<char>,
    pub install_path: Seq<char>,
    pub title: Seq<char>,
}

impl View for ParsableLibraryData {
    type V = LibraryRecord;

    open spec fn view(&self) -> LibraryRecord {
        LibraryRecord {
            app_id: self.app_id@,
            install_path: self.install_path@,
            title: self.title@,
        }
    }
}

/// The next installed game of a library file. A game is read from the value
/// of `app_name` on; one whose `is_installed` reads `false` is passed over,
/// and the search goes on after that word. Of an installed game the values
/// of `install_path` and then `title` are taken, both looked for from the
/// end of its `app_name`. The title is cleaned.
pub open spec fn game_from_library_common(content: Seq<char>) -> Option<(Seq<char>, LibraryRecord)>
    decreases content.len(),
{
    match value_json(content, "app_name"@) {
        Some((checkpoint, app_id)) => match value_json_unquoted(checkpoint, "is_installed"@) {
            Some((after_installed, is_installed)) => if is_installed == "false"@ {
                if after_installed.len() < content.len() {
                    game_from_library_common(after_installed)
                } else {
                    None
                }
            } else {
                match value_json(checkpoint, "install_path"@) {
                    Some((after_path, install_path)) => match value_json(after_path, "title"@) {
                        Some((rest, title)) => Some(
                            (
                                rest,
                                LibraryRecord { app_id, title: cleaned_title(title), install_path },
                            ),
                        ),
                        None => None,
                    },
                    None => None,
                }
            },
            None => None,
        },
        None => None,
    }
}

/// A game of a library file is found after at least one character.
pub proof fn lemma_game_from_library_common_shrinks(content: Seq<char>)
    ensures
        game_from_library_common(content) matches Some((rest, _)) ==> is_proper_suffix(
            rest,
            content,
        ),
    decreases content.len(),
{
    if game_from_library_common(content) is Some {
        lemma_value_json_shrinks(content, "app_name"@);
        let checkpoint = (value_json(content, "app_name"@)->0).0;
        lemma_value_json_unquoted_shrinks(checkpoint, "is_installed"@);
        let installed = value_json_unquoted(checkpoint, "is_installed"@)->0;
        if installed.1 == "false"@ {
            lemma_game_from_library_common_shrinks(installed.0);
            let found = game_from_library_common(installed.0)->0;
            lemma_suffix_of_suffix(installed.0, checkpoint, content);
            lemma_suffix_of_suffix(found.0, installed.0, content);
        } else {
            lemma_value_json_shrinks(checkpoint, "install_path"@);
            let after_path = (value_json(checkpoint, "install_path"@)->0).0;
            lemma_value_json_shrinks(after_path, "title"@);
            let rest = (value_json(after_path, "title"@)->0).0;
            lemma_suffix_of_suffix(after_path, checkpoint, content);
            lemma_suffix_of_suffix(rest, after_path, content);
        }
    }
}

/// Parses a single (installed) game from a Heroic Games Launcher library file
pub fn scan_game_from_library_common(content: &[char]) -> (r: Option<(usize, ParsableLibraryData)>)
    ensures
        match r {
            Some((consumed, data)) => consumed <= content@.len() && game_from_library_common(
                content@,
            ) == Some((content@.skip(consumed as int), data@)),
            None => game_from_library_common(content@) is None,
        },
{
    let key_app_name = to_chars("app_name");
    let key_is_installed = to_chars("is_installed");
    let key_install_path = to_chars("install_path");
    let key_title = to_chars("title");
    let not_installed = to_chars("false");
    let mut pos: usize = 0;
    proof {
        assert(content@.skip(0) =~= content@);
    }
    loop
        invariant
            pos <= content@.len(),
            key_app_name@ == "app_name"@,
            key_is_installed@ == "is_installed"@,
            key_install_path@ == "install_path"@,
            key_title@ == "title"@,
            not_installed@ == "false"@,
            game_from_library_common(content@) == game_from_library_common(
                content@.skip(pos as int),
            ),
        decreases content@.len() - pos,
    {
        let (_, here) = step(content, pos, 0);
        proof {
            lemma_value_json_shrinks(here@, "app_name"@);
        }
        // ID
        let (consumed, app_id) = match scan_value_json(here, key_app_name.as_slice()) {
            Some(found) => found,
            None => {
                return None;
            },
        };
        // Keep checkpoint of file content because `is_installed` comes after the `install_path`
        // and `title` may come before install info
        let (checkpoint, rest) = step(content, pos, consumed);
        // IS_INSTALLED
        let (consumed, is_installed) = match scan_value_json_unquoted(
            rest,
            key_is_installed.as_slice(),
        ) {
            Some(found) => found,
            None => {
                return None;
            },
        };
        // Continue to next game if not installed
        if same_text(is_installed, not_installed.as_slice()) {
            let (after_installed, _) = step(content, checkpoint, consumed);
            pos = after_installed;
            continue ;
        }
        // INSTALL_PATH
        let (consumed, install_path) = match scan_value_json(rest, key_install_path.as_slice()) {
            Some(found) => found,
            None => {
                return None;
            },
        };
        let (after_path, rest) = step(content, checkpoint, consumed);
        // TITLE
        let (consumed, title) = match scan_value_json(rest, key_title.as_slice()) {
            Some(found) => found,
            None => {
                return None;
            },
        };
        let (end, _) = step(content, after_path, consumed);
        let title = clean_title_chars(title);
        return Some(
            (
                end,
                ParsableLibraryData {
                    app_id: to_text(app_id),
                    title: to_text(title.as_slice()),
                    install_path: to_text(install_path),
                },
            ),
        );
    }
}

/// Reads the installed games of a library file, one after the other.
pub struct LibraryScanner;

impl RecordScanner for LibraryScanner {
    type Record = ParsableLibraryData;

    open spec fn extract(&self, text: Seq<char>) -> Option<(Seq<char>, LibraryRecord)> {
        game_from_library_common(text)
    }

    proof fn extract_shrinks(&self, text: Seq<char>) {
        lemma_game_from_library_common_shrinks(text);
    }

    fn extract_next(&self, text: &[char]) -> (r: Option<(usize, ParsableLibraryData)>) {
        scan_game_from_library_common(text)
    }
}

/// Parses all (installed) games from a given Heroic Games Launcher library file
pub fn parse_all_games_from_library<S: RecordScanner>(scanner: &S, file_content: &str) -> (r: Vec<
    S::Record,
>)
    ensures
        views(r@) == scan_all(scanner, file_content@),
{
    let chars = to_chars(file_content);
    // Parse individual games from library file until no more are found
    scan_records(scanner, chars.as_slice())
}

/// Parses all (installed) games from the text of a library file of a store
pub fn parse_all_games_from_library_common(file_content: &str) -> (r: Vec<ParsableLibraryData>)
    ensures
        views(r@) == scan_all(&LibraryScanner, file_content@),
{
    parse_all_games_from_library(&LibraryScanner, file_content)
}

/// The configuration directory of Heroic: the native one where it was
/// found, else the one of the flatpak.
pub open spec fn heroic_config_path(
    path_home: Seq<char>,
    path_config: Seq<char>,
    native_found: bool,
) -> Seq<char> {
    if native_found {
        joined(path_config, "heroic"@)
    } else {
        joined(path_home, ".var/app/com.heroicgameslauncher.hgl/config/heroic"@)
    }
}

/// The configuration directory of Heroic, once it is known whether the
/// native one exists, and whether the flatpak is used.
pub fn heroic_config_path_for(path_home: &str, path_config: &str, native_found: bool) -> (r: (
    String,
    bool,
))
    ensures
        r.0@ == heroic_config_path(path_home@, path_config@, native_found),
        r.1 == !native_found,
{
    if native_found {
        (join_path(path_config, "heroic"), false)
    } else {
        (join_path(path_home, ".var/app/com.heroicgameslauncher.hgl/config/heroic"), true)
    }
}

/// Get path to the Heroic Games Launcher config dir, falling back to the flatpak version if necessary
pub fn get_heroic_config_path(path_home: &str, path_config: &str) -> (r: (String, bool))
    ensures
        r.0@ == heroic_config_path(path_home@, path_config@, !r.1),
{
    let path_heroic_config = join_path(path_config, "heroic");
    let native_found = probe(path_heroic_config.as_str(), PathKind::Dir);
    heroic_config_path_for(path_home, path_config, native_found)
}

/// The command that launches the game `app_id` of the store `source`.
pub open spec fn launch_command_of(source: Seq<char>, app_id: Seq<char>, is_using_flatpak: bool) -> LaunchCommandView {
    let args = seq!["heroic://launch/"@ + source + "/"@ + app_id];
    if is_using_flatpak {
        LaunchCommandView {
            program: "flatpak"@,
            args: flatpak_args_of("com.heroicgameslauncher.hgl"@, Seq::empty(), args),
            envs: Seq::empty(),
        }
    } else {
        LaunchCommandView { program: "xdg-open"@, args, envs: Seq::empty() }
    }
}

/// Get launch command for game from any of the Heroic Games Launcher sources
pub fn get_launch_command_for_heroic_source(source: &str, app_id: &str, is_using_flatpak: bool) -> (r:
    crate::utils::commands::LaunchCommand)
    ensures
        r@ == launch_command_of(source@, app_id@, is_using_flatpak),
{
    let mut game_run_arg = "heroic://launch/".to_owned();
    game_run_arg.append(source);
    game_run_arg.append("/");
    game_run_arg.append(app_id);
    let args = [game_run_arg.as_str()];
    proof {
        assert(views(args@) =~= seq!["heroic://launch/"@ + source@ + "/"@ + app_id@]);
        assert(views(no_env_vars_view()) =~= Seq::empty());
    }
    if is_using_flatpak {
        let flatpak_args: [&str; 0] = [];
        proof {
            assert(views(flatpak_args@) =~= Seq::<Seq<char>>::empty());
        }
        get_launch_command_flatpak(
            "com.heroicgameslauncher.hgl",
            flatpak_args.as_slice(),
            args.as_slice(),
            no_env_vars(),
        )
    } else {
        get_launch_command("xdg-open", args.as_slice(), no_env_vars())
    }
}

/// Whether the directory and the image of one game exist.
pub struct Found {
    pub game_dir: bool,
    pub image: bool,
}

/// How a store of Heroic names itself and keeps its images.
pub struct Store {
    /// The source of the games.
    pub launcher: SupportedLaunchers,
    /// The name of the store in a launch address.
    pub source: Seq<char>,
    /// The extension of the image of a game, with its dot.
    pub image_extension: Seq<char>,
    /// Whether the image is the icon of the game, and not its box art.
    pub image_is_icon: bool,
}

/// Where the image of the game `app_id` is kept.
pub open spec fn image_path_of(path_icons: Seq<char>, app_id: Seq<char>, store: Store) -> Seq<char> {
    joined(path_icons, app_id + store.image_extension)
}

/// The game made of `data`, given what was found on disk.
pub open spec fn game_of(
    store: Store,
    path_icons: Seq<char>,
    is_using_flatpak: bool,
    data: LibraryRecord,
    found: Found,
) -> GameView {
    let image = if found.image {
        Some(image_path_of(path_icons, data.app_id, store))
    } else {
        None
    };
    GameView {
        title: data.title,
        path_icon: if store.image_is_icon {
            image
        } else {
            None
        },
        path_box_art: if store.image_is_icon {
            None
        } else {
            image
        },
        path_game_dir: if found.game_dir {
            Some(data.install_path)
        } else {
            None
        },
        launch_command: launch_command_of(store.source, data.app_id, is_using_flatpak),
        source: store.launcher,
    }
}

/// `game` is the game made of `data`, whatever was found on disk.
pub open spec fn is_game_of(
    game: GameView,
    store: Store,
    path_icons: Seq<char>,
    is_using_flatpak: bool,
    data: LibraryRecord,
) -> bool {
    exists|found: Found| game == game_of(store, path_icons, is_using_flatpak, data, found)
}

/// The path of the image of a game.
pub fn image_path_for(path_icons: &str, app_id: &str, image_extension: &str) -> (r: String)
    ensures
        r@ == joined(path_icons@, app_id@ + image_extension@),
{
    let mut file_name = app_id.to_owned();
    file_name.append(image_extension);
    join_path(path_icons, file_name.as_str())
}

/// Builds the game of `data` from what was found on disk.
pub fn game_from(
    launcher: SupportedLaunchers,
    source: &str,
    image_extension: &str,
    image_is_icon: bool,
    path_icons: &str,
    is_using_flatpak: bool,
    data: &ParsableLibraryData,
    found: Found,
) -> (r: Game)
    ensures
        r@ == game_of(
            (Store { launcher, source: source@, image_extension: image_extension@, image_is_icon }),
            path_icons@,
            is_using_flatpak,
            data@,
            found,
        ),
{
    let launch_command = get_launch_command_for_heroic_source(
        source,
        data.app_id.as_str(),
        is_using_flatpak,
    );
    let image = keep_if(
        image_path_for(path_icons, data.app_id.as_str(), image_extension),
        found.image,
    );
    let (path_icon, path_box_art) = if image_is_icon {
        (image, None)
    } else {
        (None, image)
    };
    Game {
        title: data.title.clone(),
        launch_command,
        path_box_art,
        path_game_dir: keep_if(data.install_path.clone(), found.game_dir),
        path_icon,
        source: launcher,
    }
}

/// The games of a store: one for each record, in its order, each built from
/// what the file system holds for it.
pub fn games_from(
    launcher: SupportedLaunchers,
    source: &str,
    image_extension: &str,
    image_is_icon: bool,
    path_icons: &str,
    is_using_flatpak: bool,
    parsed_data: &Vec<ParsableLibraryData>,
) -> (r: Vec<Game>)
    ensures
        r.len() == parsed_data.len(),
        forall|i: int|
            0 <= i < r.len() ==> is_game_of(
                #[trigger] r[i]@,
                (Store {
                    launcher,
                    source: source@,
                    image_extension: image_extension@,
                    image_is_icon,
                }),
                path_icons@,
                is_using_flatpak,
                parsed_data[i]@,
            ),
{
    let ghost store = Store {
        launcher,
        source: source@,
        image_extension: image_extension@,
        image_is_icon,
    };
    let mut games: Vec<Game> = Vec::new();
    let mut i: usize = 0;
    while i < parsed_data.len()
        invariant
            i <= parsed_data.len(),
            games.len() == i,
            store == (Store {
                launcher,
                source: source@,
                image_extension: image_extension@,
                image_is_icon,
            }),
            forall|k: int|
                0 <= k < i ==> is_game_of(
                    #[trigger] games[k]@,
                    store,
                    path_icons@,
                    is_using_flatpak,
                    parsed_data[k]@,
                ),
        decreases parsed_data.len() - i,
    {
        let data = &parsed_data[i];
        let found = Found {
            game_dir: probe(data.install_path.as_str(), PathKind::Dir),
            image: probe(
                image_path_for(path_icons, data.app_id.as_str(), image_extension).as_str(),
                PathKind::File,
            ),
        };
        let game = game_from(
            launcher,
            source,
            image_extension,
            image_is_icon,
            path_icons,
            is_using_flatpak,
            data,
            found,
        );
        proof {
            assert(is_game_of(game@, store, path_icons@, is_using_flatpak, parsed_data[i as int]@));
        }
        games.push(game);
        i += 1;
    }
    games
}

} // verus!
