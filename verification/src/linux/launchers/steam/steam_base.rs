// PATHS:
// - ~/.local/share/Steam/
// - Flatpak: ~/.var/app/com.valvesoftware.Steam
//! Steam: the libraries that `libraryfolders.vdf` lists, and in each the
//! games that the app manifests describe.

use vstd::prelude::*;
use vstd::string::*;
use crate::data::{Game, GameView, SupportedLaunchers};
use crate::detector::{extend_games, flattened};
use crate::linux::launchers::steam::{
    get_steam_dir, get_steam_flatpak_dir, get_steam_launch_command, steam_launch_command,
};
use crate::parsers::{scan_value_json, step, value_json};
use crate::text::{
    first_outside, lemma_views_push, matches_at, occurs_at, same_text, scan_run, tail, text_of,
    to_chars, to_text, to_vec, views, CharClass,
};
use crate::utils::paths::{join_path, joined, keep_if, probe, PathKind};
use crate::utils::strings::{clean_title_chars, cleaned_title};

verus! {

/// What an app manifest says of its game.
#[derive(Debug)]
pub struct ParsableManifestData {
    pub app_id: String,
    pub title: String,
    pub install_dir_path: String,
}

/// What an app manifest says of its game, as text.
pub struct ManifestRecord {
    pub app_id: Seq<char>,
    pub title: Seq<char>,
    pub install_dir_path: Seq<char>,
}

impl View for ParsableManifestData {
    type V = ManifestRecord;

    open spec fn view(&self) -> ManifestRecord {
        ManifestRecord {
            app_id: self.app_id@,
            title: self.title@,
            install_dir_path: self.install_dir_path@,
        }
    }
}

/// The source of the games that this module detects.
pub const LAUNCHER: SupportedLaunchers = SupportedLaunchers::Steam;

// UTILS --------------------------------------------------------------------------------
/// The name of an app manifest: `appmanifest_`, ASCII letters and digits,
/// and `.acf`, with nothing after it (some files end in `.tmp`).
pub open spec fn is_manifest_filename(filename: Seq<char>) -> bool {
    &&& occurs_at(filename, "appmanifest_"@, 0)
    &&& {
        let rest = filename.skip("appmanifest_"@.len() as int);
        rest.skip(first_outside(rest, CharClass::Alphanumeric)) == ".acf"@
    }
}

/// Used for checking if a file name matches the structure for an app manifest file
pub fn matches_manifest_filename(filename: &str) -> (r: bool)
    ensures
        r == is_manifest_filename(filename@),
{
    let name = to_chars(filename);
    let prefix = to_chars("appmanifest_");
    let suffix = to_chars(".acf");
    if !matches_at(name.as_slice(), prefix.as_slice(), 0) {
        return false;
    }
    let rest = tail(name.as_slice(), prefix.len());
    let id_len = scan_run(rest, CharClass::Alphanumeric, true);
    // Check for a full match (some files end in .*.tmp)
    same_text(tail(rest, id_len), suffix.as_slice())
}

/// The directory of the apps below `path_parent_dir`: the capitalised one
/// where it exists, else the usual one.
pub open spec fn steamapps_dir(path_parent_dir: Seq<char>, capitalised_found: bool) -> Seq<char> {
    if capitalised_found {
        joined(path_parent_dir, "Steamapps"@)
    } else {
        joined(path_parent_dir, "steamapps"@)
    }
}

/// Used for getting the path to the "steamapps" directory, which can be capitalised on some systems.
pub fn get_path_steamapps_dir(path_parent_dir: &str) -> (r: String)
    ensures
        r@ == steamapps_dir(path_parent_dir@, true) || r@ == steamapps_dir(
            path_parent_dir@,
            false,
        ),
{
    let path_steamapps_dir = join_path(path_parent_dir, "Steamapps");
    // Use the capitalised version of directory if it exists
    if probe(path_steamapps_dir.as_str(), PathKind::Dir) {
        path_steamapps_dir
    }
    // Otherwise proceed with the default
     else {
        join_path(path_parent_dir, "steamapps")
    }
}

/// What an app manifest says of its game: the values of `appid`, `name`
/// and `installdir`, each looked for after the one before. The title is
/// cleaned.
pub open spec fn game_manifest(content: Seq<char>) -> Option<(Seq<char>, ManifestRecord)> {
    match value_json(content, "appid"@) {
        Some((after_id, app_id)) => match value_json(after_id, "name"@) {
            Some((after_title, title)) => match value_json(after_title, "installdir"@) {
                Some((rest, install_dir_path)) => Some(
                    (
                        rest,
                        ManifestRecord { app_id, title: cleaned_title(title), install_dir_path },
                    ),
                ),
                None => None,
            },
            None => None,
        },
        None => None,
    }
}

/// Used for parsing relevant game's data from the given app manifest file's contents
pub fn scan_game_manifest(content: &[char]) -> (r: Option<(usize, ParsableManifestData)>)
    ensures
        match r {
            Some((consumed, data)) => consumed <= content@.len() && game_manifest(content@)
                == Some((content@.skip(consumed as int), data@)),
            None => game_manifest(content@) is None,
        },
{
    let key_app_id = to_chars("appid");
    let key_title = to_chars("name");
    let key_install_dir = to_chars("installdir");
    proof {
        assert(content@.skip(0) =~= content@);
    }
    // ID
    let (consumed, app_id) = match scan_value_json(content, key_app_id.as_slice()) {
        Some(found) => found,
        None => {
            return None;
        },
    };
    let (pos, rest) = step(content, 0, consumed);
    // TITLE
    let (consumed, title) = match scan_value_json(rest, key_title.as_slice()) {
        Some(found) => found,
        None => {
            return None;
        },
    };
    let (pos, rest) = step(content, pos, consumed);
    // INSTALL_DIR_PATH
    let (consumed, install_dir_path) = match scan_value_json(rest, key_install_dir.as_slice()) {
        Some(found) => found,
        None => {
            return None;
        },
    };
    let (pos, _) = step(content, pos, consumed);
    let title = clean_title_chars(title);
    Some(
        (
            pos,
            ParsableManifestData {
                app_id: to_text(app_id),
                title: to_text(title.as_slice()),
                install_dir_path: to_text(install_dir_path),
            },
        ),
    )
}

/// What an app manifest says of its game, or nothing where a value is
/// missing.
pub fn parse_game_manifest(file_content: &str) -> (r: Option<ParsableManifestData>)
    ensures
        match r {
            Some(data) => game_manifest(file_content@) matches Some((_, record)) && record
                == data@,
            None => game_manifest(file_content@) is None,
        },
{
    let content = to_chars(file_content);
    match scan_game_manifest(content.as_slice()) {
        Some((_, data)) => Some(data),
        None => None,
    }
}

/// What has been read of a manifest that keeps each field on a line of its
/// own.
pub struct Progress {
    pub app_id: Option<Seq<char>>,
    pub title: Option<Seq<char>>,
    pub install_dir_path: Option<Seq<char>>,
}

/// The value of `key` on `line`, if it is there.
pub open spec fn value_on(line: Seq<char>, key: Seq<char>) -> Option<Seq<char>> {
    match value_json(line, key) {
        Some((_, value)) => Some(value),
        None => None,
    }
}

/// What one line adds: a line is read only for the first of `appid`, `name`
/// and `installdir` that is still missing.
pub open spec fn after_line(progress: Progress, line: Seq<char>) -> Progress {
    if progress.app_id is None {
        Progress { app_id: value_on(line, "appid"@), ..progress }
    } else if progress.title is None {
        Progress { title: value_on(line, "name"@), ..progress }
    } else if progress.install_dir_path is None {
        Progress { install_dir_path: value_on(line, "installdir"@), ..progress }
    } else {
        progress
    }
}

/// What the lines add, one after the other.
pub open spec fn after_lines(lines: Seq<Seq<char>>) -> Progress
    decreases lines.len(),
{
    if lines.len() == 0 {
        Progress { app_id: None, title: None, install_dir_path: None }
    } else {
        after_line(after_lines(lines.drop_last()), lines.last())
    }
}

/// What the lines of a manifest say of its game: nothing unless all three
/// values were found. The title is cleaned.
pub open spec fn game_manifest_of_lines(lines: Seq<Seq<char>>) -> Option<ManifestRecord> {
    let progress = after_lines(lines);
    if progress.app_id is Some && progress.title is Some && progress.install_dir_path is Some {
        Some(
            ManifestRecord {
                app_id: progress.app_id->0,
                title: cleaned_title(progress.title->0),
                install_dir_path: progress.install_dir_path->0,
            },
        )
    } else {
        None
    }
}

fn scan_value_on(line: &[char], key: &[char]) -> (r: Option<Vec<char>>)
    ensures
        match r {
            Some(value) => value_on(line@, key@) == Some(value@),
            None => value_on(line@, key@) is None,
        },
{
    match scan_value_json(line, key) {
        Some((_, value)) => Some(to_vec(value)),
        None => None,
    }
}

/// Parse data from the lines of an app manifest file
pub fn parse_game_manifest_lines(lines: &Vec<String>) -> (r: Option<ParsableManifestData>)
    ensures
        match r {
            Some(data) => game_manifest_of_lines(views(lines@)) == Some(data@),
            None => game_manifest_of_lines(views(lines@)) is None,
        },
{
    let key_app_id = to_chars("appid");
    let key_title = to_chars("name");
    let key_install_dir = to_chars("installdir");
    let mut opt_appid: Option<Vec<char>> = None;
    let mut opt_title: Option<Vec<char>> = None;
    let mut opt_game_dir: Option<Vec<char>> = None;
    let mut i: usize = 0;
    proof {
        assert(views(lines@).take(0) =~= Seq::empty());
    }
    while i < lines.len()
        invariant
            i <= lines.len(),
            key_app_id@ == "appid"@,
            key_title@ == "name"@,
            key_install_dir@ == "installdir"@,
            after_lines(views(lines@).take(i as int)) == (Progress {
                app_id: chars_of(opt_appid),
                title: chars_of(opt_title),
                install_dir_path: chars_of(opt_game_dir),
            }),
        decreases lines.len() - i,
    {
        proof {
            let upto = views(lines@).take(i + 1);
            assert(upto.drop_last() =~= views(lines@).take(i as int));
            assert(upto.last() == lines[i as int]@);
        }
        let line = to_chars(lines[i].as_str());
        if opt_appid.is_none() {
            opt_appid = scan_value_on(line.as_slice(), key_app_id.as_slice());
        } else if opt_title.is_none() {
            opt_title = scan_value_on(line.as_slice(), key_title.as_slice());
        } else if opt_game_dir.is_none() {
            opt_game_dir = scan_value_on(line.as_slice(), key_install_dir.as_slice());
        }
        i += 1;
    }
    proof {
        assert(views(lines@).take(lines@.len() as int) =~= views(lines@));
    }
    match (opt_appid, opt_title, opt_game_dir) {
        (Some(appid), Some(title), Some(game_dir)) => Some(
            ParsableManifestData {
                app_id: to_text(appid.as_slice()),
                title: to_text(clean_title_chars(title.as_slice()).as_slice()),
                install_dir_path: to_text(game_dir.as_slice()),
            },
        ),
        _ => None,
    }
}

/// The characters of an optional run of characters.
pub open spec fn chars_of(chars: Option<Vec<char>>) -> Option<Seq<char>> {
    match chars {
        Some(chars) => Some(chars@),
        None => None,
    }
}

/// The images of a game that were found in the library cache.
pub struct Images {
    pub path_box_art: Option<Seq<char>>,
    pub path_icon: Option<Seq<char>>,
}

/// A file found below the directory of a game in the library cache: its
/// path and its name.
pub type CacheEntry = (String, String);

/// The name of the box art in the library cache.
pub open spec fn is_box_art_name(file_name: Seq<char>) -> bool {
    file_name == "library_600x900.jpg"@ || file_name == "library_capsule.jpg"@
}

/// The name of an icon in the library cache: forty characters, as far as is
/// known a digest, and `.jpg`.
pub open spec fn is_icon_name(file_name: Seq<char>) -> bool {
    &&& vstd::utf8::encode_utf8(file_name).len() == 44
    &&& occurs_at(file_name, ".jpg"@, file_name.len() - ".jpg"@.len())
}

/// The images after one more entry of the cache: a file named as box art
/// replaces the box art, one named as an icon the icon.
pub open spec fn with_entry(images: Images, entry: (Seq<char>, Seq<char>)) -> Images {
    if is_box_art_name(entry.1) {
        Images { path_box_art: Some(entry.0), path_icon: images.path_icon }
    } else if is_icon_name(entry.1) {
        Images { path_box_art: images.path_box_art, path_icon: Some(entry.0) }
    } else {
        images
    }
}

/// The images after all entries of the cache, in their order: the last file
/// of each kind is the one that stays.
pub open spec fn with_entries(images: Images, entries: Seq<(Seq<char>, Seq<char>)>) -> Images
    decreases entries.len(),
{
    if entries.len() == 0 {
        images
    } else {
        with_entry(with_entries(images, entries.drop_last()), entries.last())
    }
}

fn is_box_art_file_name(file_name: &str) -> (r: bool)
    ensures
        r == is_box_art_name(file_name@),
{
    let name = to_chars(file_name);
    let first = to_chars("library_600x900.jpg");
    let second = to_chars("library_capsule.jpg");
    same_text(name.as_slice(), first.as_slice()) || same_text(name.as_slice(), second.as_slice())
}

fn is_icon_file_name(file_name: &str) -> (r: bool)
    ensures
        r == is_icon_name(file_name@),
{
    let name = to_chars(file_name);
    let suffix = to_chars(".jpg");
    let bytes = file_name.as_bytes();
    proof {
        assert(bytes@ == vstd::utf8::encode_utf8(file_name@));
    }
    if bytes.len() != 44 || name.len() < suffix.len() {
        return false;
    }
    matches_at(name.as_slice(), suffix.as_slice(), name.len() - suffix.len())
}

// STEAM LIBRARY ------------------------------------------------------------------------
#[derive(Debug)]
pub struct SteamLibrary {
    pub path_library: String,
    pub path_steam_dir: String,
    pub is_using_flatpak: bool,
}

/// What was found on disk for one game.
pub struct Found {
    /// The box art of the old layout of the library cache.
    pub old_box_art: bool,
    /// The icon of the old layout of the library cache.
    pub old_icon: bool,
    pub game_dir: bool,
}

impl SteamLibrary {
    /// The file names among `file_names` that are names of app manifests,
    /// in their order.
    pub fn get_manifest_names(file_names: &Vec<String>) -> (r: Vec<String>)
        ensures
            views(r@) == views(file_names@).filter(|name: Seq<char>| is_manifest_filename(name)),
    {
        let mut manifests: Vec<String> = Vec::new();
        let mut i: usize = 0;
        let ghost keep = |name: Seq<char>| is_manifest_filename(name);
        proof {
            assert(views(file_names@).take(0) =~= Seq::empty());
            assert(views(manifests@) =~= Seq::empty());
            reveal(Seq::filter);
        }
        while i < file_names.len()
            invariant
                i <= file_names.len(),
                keep == |name: Seq<char>| is_manifest_filename(name),
                views(manifests@) == views(file_names@).take(i as int).filter(keep),
            decreases file_names.len() - i,
        {
            proof {
                let upto = views(file_names@).take(i + 1);
                assert(upto.drop_last() =~= views(file_names@).take(i as int));
                assert(upto.last() == file_names[i as int]@);
                reveal(Seq::filter);
            }
            if matches_manifest_filename(file_names[i].as_str()) {
                let name = file_names[i].clone();
                proof {
                    lemma_views_push(manifests@, name);
                }
                manifests.push(name);
            }
            i += 1;
        }
        proof {
            assert(views(file_names@).take(file_names@.len() as int) =~= views(file_names@));
        }
        manifests
    }

    /// The directory of the library cache in which the images of the game
    /// `app_id` are kept.
    pub open spec fn cache_dir(path_steam_dir: Seq<char>, app_id: Seq<char>) -> Seq<char> {
        joined(path_steam_dir, "appcache/librarycache/"@ + app_id)
    }

    /// An image of the old layout of the library cache.
    pub open spec fn old_image(path_steam_dir: Seq<char>, app_id: Seq<char>, name: Seq<char>) -> Seq<
        char,
    > {
        joined(path_steam_dir, "appcache/librarycache/"@ + app_id + name)
    }

    /// The directory of the library cache of the game `app_id`, whose files
    /// down to the second level are to be handed to `get_images`, each
    /// directory after what it holds.
    pub fn get_cache_dir(&self, app_id: &str) -> (r: String)
        ensures
            r@ == Self::cache_dir(self.path_steam_dir@, app_id@),
    {
        let mut below = "appcache/librarycache/".to_owned();
        below.append(app_id);
        join_path(self.path_steam_dir.as_str(), below.as_str())
    }

    fn get_old_image(&self, app_id: &str, name: &str) -> (r: String)
        ensures
            r@ == Self::old_image(self.path_steam_dir@, app_id@, name@),
    {
        let mut below = "appcache/librarycache/".to_owned();
        below.append(app_id);
        below.append(name);
        join_path(self.path_steam_dir.as_str(), below.as_str())
    }

    /// The images of a game: those of the old layout, as far as they were
    /// found, and then what the entries of the cache put in their place.
    pub open spec fn images_of(
        path_steam_dir: Seq<char>,
        app_id: Seq<char>,
        old_box_art: bool,
        old_icon: bool,
        entries: Seq<(Seq<char>, Seq<char>)>,
    ) -> Images {
        with_entries(
            Images {
                path_box_art: if old_box_art {
                    Some(Self::old_image(path_steam_dir, app_id, "_library_600x900.jpg"@))
                } else {
                    None
                },
                path_icon: if old_icon {
                    Some(Self::old_image(path_steam_dir, app_id, "_icon.jpg"@))
                } else {
                    None
                },
            },
            entries,
        )
    }

    /// Picks the box art and the icon of a game from what was found.
    pub fn pick_images(
        &self,
        app_id: &str,
        old_box_art: bool,
        old_icon: bool,
        entries: &Vec<CacheEntry>,
    ) -> (r: (Option<String>, Option<String>))
        ensures
            (Images { path_box_art: text_of(r.0), path_icon: text_of(r.1) }) == Self::images_of(
                self.path_steam_dir@,
                app_id@,
                old_box_art,
                old_icon,
                views(entries@),
            ),
    {
        // Old library cache structure
        let mut path_box_art = keep_if(
            self.get_old_image(app_id, "_library_600x900.jpg"),
            old_box_art,
        );
        let mut path_icon = keep_if(self.get_old_image(app_id, "_icon.jpg"), old_icon);
        // In newer structures, icons and box art can appear in any sub-dir within the `app_id` dir
        let mut i: usize = 0;
        proof {
            assert(views(entries@).take(0) =~= Seq::empty());
        }
        while i < entries.len()
            invariant
                i <= entries.len(),
                (Images { path_box_art: text_of(path_box_art), path_icon: text_of(path_icon) })
                    == Self::images_of(
                    self.path_steam_dir@,
                    app_id@,
                    old_box_art,
                    old_icon,
                    views(entries@).take(i as int),
                ),
            decreases entries.len() - i,
        {
            proof {
                let upto = views(entries@).take(i + 1);
                assert(upto.drop_last() =~= views(entries@).take(i as int));
                assert(upto.last() == entries[i as int]@);
            }
            if is_box_art_file_name(entries[i].1.as_str()) {
                path_box_art = Some(entries[i].0.clone());
            }
            // Not sure how else to parse these, as I can't find them mentioned anywhere.
            // The filenames look like: a4c7a8cce43d797c275aaf601d6855b90ba87769.jpg
             else if is_icon_file_name(entries[i].1.as_str()) {
                path_icon = Some(entries[i].0.clone());
            }
            i += 1;
        }
        proof {
            assert(views(entries@).take(entries@.len() as int) =~= views(entries@));
        }
        (path_box_art, path_icon)
    }

    /// Get the box art for a specific game, checking several different potential locations.
    pub fn get_images(&self, app_id: &str, entries: &Vec<CacheEntry>) -> (r: (
        Option<String>,
        Option<String>,
    ))
        ensures
            exists|old_box_art: bool, old_icon: bool|
                (Images { path_box_art: text_of(r.0), path_icon: text_of(r.1) })
                    == #[trigger] Self::images_of(
                    self.path_steam_dir@,
                    app_id@,
                    old_box_art,
                    old_icon,
                    views(entries@),
                ),
    {
        let old_box_art = probe(
            self.get_old_image(app_id, "_library_600x900.jpg").as_str(),
            PathKind::File,
        );
        let old_icon = probe(self.get_old_image(app_id, "_icon.jpg").as_str(), PathKind::File);
        self.pick_images(app_id, old_box_art, old_icon, entries)
    }

    /// Where a game of this library is installed.
    pub open spec fn game_dir(path_library: Seq<char>, install_dir_path: Seq<char>) -> Seq<char> {
        joined(joined(path_library, "steamapps/common"@), install_dir_path)
    }

    /// The game of a manifest, given what was found on disk, or nothing
    /// where no box art was found: such entries are no games but runtimes,
    /// redistributables and the like.
    pub open spec fn game_of(
        self,
        manifest: ManifestRecord,
        found: Found,
        entries: Seq<(Seq<char>, Seq<char>)>,
    ) -> Option<GameView> {
        let images = Self::images_of(
            self.path_steam_dir@,
            manifest.app_id,
            found.old_box_art,
            found.old_icon,
            entries,
        );
        if images.path_box_art is None {
            None
        } else {
            Some(
                GameView {
                    title: manifest.title,
                    path_icon: images.path_icon,
                    path_box_art: images.path_box_art,
                    path_game_dir: if found.game_dir {
                        Some(Self::game_dir(self.path_library@, manifest.install_dir_path))
                    } else {
                        None
                    },
                    launch_command: steam_launch_command(manifest.app_id, self.is_using_flatpak),
                    source: SupportedLaunchers::Steam,
                },
            )
        }
    }

    /// Builds the game of a manifest from what was found on disk.
    pub fn game_from(&self, manifest: &ParsableManifestData, found: Found, entries: &Vec<CacheEntry>) -> (r:
        Option<Game>)
        ensures
            match r {
                Some(game) => Some(game@) == self.game_of(manifest@, found, views(entries@)),
                None => self.game_of(manifest@, found, views(entries@)) is None,
            },
    {
        let launch_command = get_steam_launch_command(
            manifest.app_id.as_str(),
            self.is_using_flatpak,
        );
        let path_game_dir = keep_if(
            join_path(
                join_path(self.path_library.as_str(), "steamapps/common").as_str(),
                manifest.install_dir_path.as_str(),
            ),
            found.game_dir,
        );
        let (path_box_art, path_icon) = self.pick_images(
            manifest.app_id.as_str(),
            found.old_box_art,
            found.old_icon,
            entries,
        );
        // Skip entries without box art as they are not games (runtimes, redistributables, DLC, etc.),
        // at least as far as I know
        if path_box_art.is_none() {
            return None;
        }
        Some(
            Game {
                title: manifest.title.clone(),
                launch_command,
                path_box_art,
                path_game_dir,
                path_icon,
                source: LAUNCHER,
            },
        )
    }

    /// Returns a new Game from the given steam app manifest (`appmanifest_.*.acf`)
    /// and the files of its directory in the library cache
    pub fn get_game(&self, manifest: &ParsableManifestData, entries: &Vec<CacheEntry>) -> (r: Option<
        Game,
    >)
        ensures
            exists|found: Found|
                match r {
                    Some(game) => Some(game@) == #[trigger] self.game_of(
                        manifest@,
                        found,
                        views(entries@),
                    ),
                    None => self.game_of(manifest@, found, views(entries@)) is None,
                },
    {
        let found = self.look_for(manifest);
        let game = self.game_from(manifest, found, entries);
        proof {
            let _ = self.game_of(manifest@, found, views(entries@));
        }
        game
    }
}

/// What is known of one app manifest: what it says, and the files of the
/// directory of its game in the library cache.
#[derive(Debug)]
pub struct ManifestFiles {
    pub manifest: ParsableManifestData,
    pub entries: Vec<CacheEntry>,
}

impl View for ManifestFiles {
    type V = (ManifestRecord, Seq<(Seq<char>, Seq<char>)>);

    open spec fn view(&self) -> (ManifestRecord, Seq<(Seq<char>, Seq<char>)>) {
        (self.manifest@, views(self.entries@))
    }
}

impl SteamLibrary {
    /// The games of the manifests, in their order, given what was found on
    /// disk for each; a manifest without a game is passed over.
    pub open spec fn games_of(
        self,
        manifests: Seq<(ManifestRecord, Seq<(Seq<char>, Seq<char>)>)>,
        found: Seq<Found>,
    ) -> Seq<GameView>
        decreases manifests.len(),
    {
        if manifests.len() == 0 || found.len() != manifests.len() {
            Seq::empty()
        } else {
            let before = self.games_of(manifests.drop_last(), found.drop_last());
            match self.game_of(manifests.last().0, found.last(), manifests.last().1) {
                Some(game) => before.push(game),
                None => before,
            }
        }
    }

    /// Asks the file system for the images of the old layout and for the
    /// directory of a game.
    pub fn look_for(&self, manifest: &ParsableManifestData) -> Found {
        Found {
            old_box_art: probe(
                self.get_old_image(manifest.app_id.as_str(), "_library_600x900.jpg").as_str(),
                PathKind::File,
            ),
            old_icon: probe(
                self.get_old_image(manifest.app_id.as_str(), "_icon.jpg").as_str(),
                PathKind::File,
            ),
            game_dir: probe(
                join_path(
                    join_path(self.path_library.as_str(), "steamapps/common").as_str(),
                    manifest.install_dir_path.as_str(),
                ).as_str(),
                PathKind::Dir,
            ),
        }
    }

    /// Get all steam games associated with this library
    pub fn get_all_games(&self, manifests: &Vec<ManifestFiles>) -> (r: Vec<Game>)
        ensures
            exists|found: Seq<Found>|
                found.len() == manifests.len() && views(r@) == #[trigger] self.games_of(
                    views(manifests@),
                    found,
                ),
    {
        let mut games: Vec<Game> = Vec::new();
        let ghost mut found: Seq<Found> = Seq::empty();
        let mut i: usize = 0;
        proof {
            assert(views(manifests@).take(0) =~= Seq::empty());
            assert(views(games@) =~= Seq::empty());
        }
        while i < manifests.len()
            invariant
                i <= manifests.len(),
                found.len() == i,
                views(games@) == self.games_of(views(manifests@).take(i as int), found),
            decreases manifests.len() - i,
        {
            let here = self.look_for(&manifests[i].manifest);
            proof {
                let upto = views(manifests@).take(i + 1);
                assert(upto.drop_last() =~= views(manifests@).take(i as int));
                assert(upto.last() == manifests[i as int]@);
                assert(found.push(here).drop_last() =~= found);
            }
            match self.game_from(&manifests[i].manifest, here, &manifests[i].entries) {
                Some(game) => {
                    proof {
                        lemma_views_push(games@, game);
                    }
                    games.push(game);
                },
                None => {},
            }
            proof {
                found = found.push(here);
            }
            i += 1;
        }
        proof {
            assert(views(manifests@).take(manifests@.len() as int) =~= views(manifests@));
        }
        games
    }
}

// STEAM LAUNCHER -----------------------------------------------------------------------
#[derive(Debug)]
pub struct Steam {
    pub path_steam_dir: String,
    pub is_using_flatpak: bool,
}

impl Steam {
    /// The source of the games of this launcher.
    pub fn get_launcher_type(&self) -> (r: SupportedLaunchers)
        ensures
            r == SupportedLaunchers::Steam,
    {
        SupportedLaunchers::Steam
    }

    /// Asks the file system whether the launcher is there. The answer
    /// depends on what is on disk, so nothing is stated of it.
    pub fn is_detected(&self) -> bool {
        probe(self.path_steam_dir.as_str(), PathKind::Dir)
    }

    /// Whether this is the launcher for the given directories.
    pub open spec fn is_located(self, path_home: Seq<char>, path_data: Seq<char>, native_found: bool) -> bool {
        &&& self.is_using_flatpak == !native_found
        &&& self.path_steam_dir@ == if native_found {
            joined(path_data, "Steam"@)
        } else {
            joined(path_home, ".var/app/com.valvesoftware.Steam/data/Steam"@)
        }
    }

    /// The launcher, once it is known whether the native directory of Steam
    /// exists.
    pub fn located(path_home: &str, path_data: &str, native_found: bool) -> (r: Self)
        ensures
            r.is_located(path_home@, path_data@, native_found),
    {
        Steam {
            path_steam_dir: if native_found {
                get_steam_dir(path_data)
            } else {
                get_steam_flatpak_dir(path_home)
            },
            is_using_flatpak: !native_found,
        }
    }

    /// Looks for the directory of Steam and falls back to the flatpak's
    /// where it is missing.
    pub fn new(path_home: &str, path_data: &str) -> (r: Self)
        ensures
            r.is_located(path_home@, path_data@, true) || r.is_located(
                path_home@,
                path_data@,
                false,
            ),
    {
        let path_steam_dir = get_steam_dir(path_data);
        let native_found = probe(path_steam_dir.as_str(), PathKind::Dir);
        Self::located(path_home, path_data, native_found)
    }

    /// The games of Steam: those of its libraries, one library after the
    /// other.
    pub fn get_detected_games(games_of_libraries: &Vec<Vec<Game>>) -> (r: Vec<Game>)
        ensures
            views(r@) == flattened(Seq::new(games_of_libraries.len() as nat, |i: int| views(games_of_libraries[i]@))),
    {
        let ghost lists = Seq::new(
            games_of_libraries.len() as nat,
            |i: int| views(games_of_libraries[i]@),
        );
        let mut games: Vec<Game> = Vec::new();
        let mut i: usize = 0;
        proof {
            assert(lists.take(0) =~= Seq::empty());
            assert(views(games@) =~= Seq::empty());
        }
        while i < games_of_libraries.len()
            invariant
                i <= games_of_libraries.len(),
                lists == Seq::new(
                    games_of_libraries.len() as nat,
                    |i: int| views(games_of_libraries[i]@),
                ),
                views(games@) == flattened(lists.take(i as int)),
            decreases games_of_libraries.len() - i,
        {
            proof {
                assert(lists.take(i + 1).drop_last() =~= lists.take(i as int));
                assert(lists.take(i + 1).last() == views(games_of_libraries[i as int]@));
            }
            extend_games(&mut games, &games_of_libraries[i]);
            i += 1;
        }
        proof {
            assert(lists.take(lists.len() as int) =~= lists);
        }
        games
    }

    /// The paths of the libraries that the lines name: of each line that
    /// holds the key `path`, its value.
    pub open spec fn library_paths(lines: Seq<Seq<char>>) -> Seq<Seq<char>>
        decreases lines.len(),
    {
        if lines.len() == 0 {
            Seq::empty()
        } else {
            let before = Self::library_paths(lines.drop_last());
            match value_json(lines.last(), "path"@) {
                Some((_, library_path)) => before.push(library_path),
                None => before,
            }
        }
    }

    /// Get all available steam libraries by parsing the lines of the `libraryfolders.vdf` file
    pub fn get_steam_libraries(&self, lines: &Vec<String>) -> (r: Vec<SteamLibrary>)
        ensures
            r.len() == Self::library_paths(views(lines@)).len(),
            forall|i: int|
                0 <= i < r.len() ==> (#[trigger] r[i]).path_library@ == Self::library_paths(
                    views(lines@),
                )[i] && r[i].path_steam_dir@ == self.path_steam_dir@ && r[i].is_using_flatpak
                    == self.is_using_flatpak,
    {
        let key_path = to_chars("path");
        let mut libraries: Vec<SteamLibrary> = Vec::new();
        let mut i: usize = 0;
        proof {
            assert(views(lines@).take(0) =~= Seq::empty());
        }
        while i < lines.len()
            invariant
                i <= lines.len(),
                key_path@ == "path"@,
                libraries.len() == Self::library_paths(views(lines@).take(i as int)).len(),
                forall|k: int|
                    0 <= k < libraries.len() ==> (#[trigger] libraries[k]).path_library@
                        == Self::library_paths(views(lines@).take(i as int))[k]
                        && libraries[k].path_steam_dir@ == self.path_steam_dir@
                        && libraries[k].is_using_flatpak == self.is_using_flatpak,
            decreases lines.len() - i,
        {
            proof {
                let upto = views(lines@).take(i + 1);
                assert(upto.drop_last() =~= views(lines@).take(i as int));
                assert(upto.last() == lines[i as int]@);
            }
            let line = to_chars(lines[i].as_str());
            match scan_value_json(line.as_slice(), key_path.as_slice()) {
                Some((_, library_path)) => {
                    libraries.push(
                        SteamLibrary {
                            path_library: to_text(library_path),
                            path_steam_dir: self.path_steam_dir.clone(),
                            is_using_flatpak: self.is_using_flatpak,
                        },
                    );
                },
                None => {},
            }
            i += 1;
        }
        proof {
            assert(views(lines@).take(lines@.len() as int) =~= views(lines@));
        }
        libraries
    }
}

} // verus!
