// PATHS:
// - ~/.local/share/bottles/
// - Flatpak: ~/.var/app/com.usebottles.bottles/data/bottles/
//! Bottles: the games that the library file lists, joined by their id with
//! the programs that each bottle's own file describes.

use vstd::prelude::*;
use vstd::string::*;
use crate::data::{Game, GameView, SupportedLaunchers};
use crate::parsers::{
    lemma_after_key_leaves_suffix, lemma_take_till1_shrinks, lemma_take_till_leaves_suffix,
    lemma_value_yml_shrinks, not_alphanumeric, scan_till, scan_till1, scan_value_yml, scan_while1,
    step, take_till, take_till1, take_while1, till_end_of_line, until_key, value_yml, yml_key,
};
use crate::reconcile::{
    inner_join, is_one_to_one, is_pair_of, lemma_inner_join_by_pairs, lemma_pairs_are_the_matches,
    lemma_pairs_use_each_once, matched_pairs, reconcile, JoinRule,
};
use crate::scanner::{scan_all, scan_records, RecordScanner};
use crate::text::{
    contains_char, contains_text, extend_chars, find, first_occurrence, first_outside,
    is_proper_suffix, is_run_end, is_suffix, lemma_first_occurrence_is, lemma_run_end,
    lemma_run_end_is, lemma_skip_is_suffix, lemma_suffix_of_suffix, lemma_views_add, matches_at,
    occurs_at, tail, text_of, to_chars, to_text, trim_start_len, trimmed_start, views, CharClass,
};
use crate::utils::commands::{
    flatpak_args_of, get_launch_command, get_launch_command_flatpak, no_env_vars, no_env_vars_view,
    LaunchCommandView,
};
use crate::utils::paths::{join_path, joined, keep_if, probe, PathKind};
use crate::utils::strings::{clean_game_title, cleaned_title};

verus! {

/// What the library file says of one game.
#[derive(Debug, Clone)]
pub struct ParsableLibraryData {
    pub id: String,
    pub title: String,
    /// The path of the icon as the file gives it.
    pub icon: String,
    pub box_art: Option<String>,
    pub bottle_name: String,
    pub bottle_subdir: String,
}

/// What the file of a bottle says of one program.
#[derive(Debug, Clone)]
pub struct ParsableBottleYmlData {
    pub id: String,
    pub game_dir: String,
}

/// A game of the library with the directory that its bottle gives for it.
#[derive(Debug)]
pub struct ParsableDataCombined {
    pub title: String,
    /// The path of the icon as the library file gives it.
    pub path_icon: String,
    pub box_art: Option<String>,
    pub bottle_name: String,
    pub bottle_subdir: String,
    pub game_dir: String,
}

/// What a library file says of one game, as text.
pub struct LibraryRecord {
    pub id: Seq<char>,
    pub title: Seq<char>,
    pub icon: Seq<char>,
    pub box_art: Option<Seq<char>>,
    pub bottle_name: Seq<char>,
    pub bottle_subdir: Seq<char>,
}

/// What the file of a bottle says of one program, as text.
pub struct BottleYmlRecord {
    pub id: Seq<char>,
    pub game_dir: Seq<char>,
}

/// A joined record, as text.
pub struct CombinedRecord {
    pub title: Seq<char>,
    pub path_icon: Seq<char>,
    pub box_art: Option<Seq<char>>,
    pub bottle_name: Seq<char>,
    pub bottle_subdir: Seq<char>,
    pub game_dir: Seq<char>,
}

impl View for ParsableLibraryData {
    type V = LibraryRecord;

    open spec fn view(&self) -> LibraryRecord {
        LibraryRecord {
            id: self.id@,
            title: self.title@,
            icon: self.icon@,
            box_art: text_of(self.box_art),
            bottle_name: self.bottle_name@,
            bottle_subdir: self.bottle_subdir@,
        }
    }
}

impl View for ParsableBottleYmlData {
    type V = BottleYmlRecord;

    open spec fn view(&self) -> BottleYmlRecord {
        BottleYmlRecord { id: self.id@, game_dir: self.game_dir@ }
    }
}

impl View for ParsableDataCombined {
    type V = CombinedRecord;

    open spec fn view(&self) -> CombinedRecord {
        CombinedRecord {
            title: self.title@,
            path_icon: self.path_icon@,
            box_art: text_of(self.box_art),
            bottle_name: self.bottle_name@,
            bottle_subdir: self.bottle_subdir@,
            game_dir: self.game_dir@,
        }
    }
}

/// A game of the library and the program of a bottle, as one record.
pub open spec fn combined(library_data: LibraryRecord, bottle_data: BottleYmlRecord) -> CombinedRecord {
    CombinedRecord {
        title: library_data.title,
        path_icon: library_data.icon,
        box_art: library_data.box_art,
        bottle_name: library_data.bottle_name,
        bottle_subdir: library_data.bottle_subdir,
        game_dir: bottle_data.game_dir,
    }
}

impl ParsableDataCombined {
    /// Makes one record of the two.
    pub fn combine(library_data: &ParsableLibraryData, bottle_data: &ParsableBottleYmlData) -> (r:
        Self)
        ensures
            r@ == combined(library_data@, bottle_data@),
    {
        ParsableDataCombined {
            title: library_data.title.clone(),
            path_icon: library_data.icon.clone(),
            box_art: match &library_data.box_art {
                Some(box_art) => Some(box_art.clone()),
                None => None,
            },
            bottle_subdir: library_data.bottle_subdir.clone(),
            bottle_name: library_data.bottle_name.clone(),
            game_dir: bottle_data.game_dir.clone(),
        }
    }
}

/// The source of the games that this module detects.
pub const LAUNCHER: SupportedLaunchers = SupportedLaunchers::Bottles;

// UTILS --------------------------------------------------------------------------------
/// The lines on which a path goes on. `rest` starts at the end of a line.
/// The line that follows either holds a colon, and then the path is
/// complete and nothing of that line is consumed; or it starts with blanks,
/// and then what follows the blanks is added to the path after one space.
/// The end of the text, or a line that neither holds a colon nor starts with
/// a blank, is no match.
pub open spec fn folder_continuation(rest: Seq<char>, game_dir: Seq<char>) -> Option<
    (Seq<char>, Seq<char>),
>
    decreases rest.len(),
{
    if rest.len() == 0 || rest[0] != '\n' {
        None
    } else {
        let (after_line, line) = till_end_of_line(rest.skip(1));
        if line.contains(':') {
            Some((rest, game_dir))
        } else {
            match take_while1(line, CharClass::Blank) {
                Some((fragment, _)) => if after_line.len() < rest.len() {
                    folder_continuation(after_line, game_dir + seq![' '] + fragment)
                } else {
                    None
                },
                None => None,
            }
        }
    }
}

/// One program of a bottle's file: the path after the key `folder`, from its
/// first slash on and over the lines on which it goes on, and then the value
/// of the key `id`.
pub open spec fn game_from_bottle_yml(content: Seq<char>) -> Option<(Seq<char>, BottleYmlRecord)> {
    match until_key(content, yml_key("folder"@)) {
        Some((at_key, _)) => {
            let (rest, first_fragment) = till_end_of_line(
                take_till(at_key, CharClass::Only('/')).0,
            );
            match folder_continuation(rest, first_fragment) {
                Some((rest, game_dir)) => match value_yml(rest, "id"@) {
                    Some((rest, id)) => Some((rest, BottleYmlRecord { id, game_dir })),
                    None => None,
                },
                None => None,
            }
        },
        None => None,
    }
}

/// The lines on which a path goes on leave an end of the text.
pub proof fn lemma_folder_continuation_leaves_suffix(rest: Seq<char>, game_dir: Seq<char>)
    ensures
        folder_continuation(rest, game_dir) matches Some((left, _)) ==> is_suffix(left, rest),
    decreases rest.len(),
{
    if rest.len() > 0 && rest[0] == '\n' {
        let (after_line, line) = till_end_of_line(rest.skip(1));
        lemma_skip_is_suffix(rest, 0);
        assert(rest.skip(0) =~= rest);
        if !line.contains(':') && take_while1(line, CharClass::Blank) is Some && after_line.len()
            < rest.len() {
            let found = take_while1(line, CharClass::Blank)->0;
            lemma_folder_continuation_leaves_suffix(after_line, game_dir + seq![' '] + found.0);
            lemma_take_till_leaves_suffix(rest.skip(1), CharClass::Only('\n'));
            lemma_skip_is_suffix(rest, 1);
            lemma_suffix_of_suffix(after_line, rest.skip(1), rest);
            if folder_continuation(rest, game_dir) is Some {
                let left = folder_continuation(rest, game_dir)->0;
                lemma_suffix_of_suffix(left.0, after_line, rest);
            }
        }
    }
}

/// A program of a bottle's file is found after at least one character.
pub proof fn lemma_game_from_bottle_yml_shrinks(content: Seq<char>)
    ensures
        game_from_bottle_yml(content) matches Some((rest, _)) ==> is_proper_suffix(rest, content),
{
    if game_from_bottle_yml(content) is Some {
        let marker = yml_key("folder"@);
        lemma_after_key_leaves_suffix(content, marker);
        let found = until_key(content, marker)->0;
        let at_key = found.0;
        let at_slash = take_till(at_key, CharClass::Only('/')).0;
        lemma_take_till_leaves_suffix(at_key, CharClass::Only('/'));
        lemma_take_till_leaves_suffix(at_slash, CharClass::Only('\n'));
        let (rest, first_fragment) = till_end_of_line(at_slash);
        lemma_folder_continuation_leaves_suffix(rest, first_fragment);
        let continued = folder_continuation(rest, first_fragment)->0;
        lemma_value_yml_shrinks(continued.0, "id"@);
        let valued = value_yml(continued.0, "id"@)->0;
        lemma_suffix_of_suffix(at_slash, at_key, content);
        lemma_suffix_of_suffix(rest, at_slash, content);
        lemma_suffix_of_suffix(continued.0, rest, content);
        lemma_suffix_of_suffix(valued.0, continued.0, content);
    }
}

fn scan_folder_continuation(rest: &[char], first_fragment: &[char]) -> (r: Option<
    (usize, Vec<char>),
>)
    ensures
        match r {
            Some((consumed, game_dir)) => consumed <= rest@.len() && folder_continuation(
                rest@,
                first_fragment@,
            ) == Some((rest@.skip(consumed as int), game_dir@)),
            None => folder_continuation(rest@, first_fragment@) is None,
        },
{
    let mut game_dir: Vec<char> = Vec::new();
    extend_chars(&mut game_dir, first_fragment);
    let mut pos: usize = 0;
    proof {
        assert(rest@.skip(0) =~= rest@);
        assert(game_dir@ =~= first_fragment@);
    }
    loop
        invariant
            pos <= rest@.len(),
            folder_continuation(rest@, first_fragment@) == folder_continuation(
                rest@.skip(pos as int),
                game_dir@,
            ),
        decreases rest@.len() - pos,
    {
        let here = tail(rest, pos);
        if here.len() == 0 || here[0] != '\n' {
            return None;
        }
        let (line_len, line) = scan_till(tail(here, 1), CharClass::Only('\n'));
        if contains_char(line, ':') {
            return Some((pos, game_dir));
        }
        match scan_while1(line, CharClass::Blank) {
            Some((blanks, _)) => {
                let fragment = tail(line, blanks);
                let ghost before = game_dir@;
                game_dir.push(' ');
                extend_chars(&mut game_dir, fragment);
                proof {
                    assert(here@.skip(1).skip(line_len as int) =~= rest@.skip(pos + 1 + line_len));
                    assert(game_dir@ =~= before + seq![' '] + fragment@);
                    assert(folder_continuation(here@, before) == folder_continuation(
                        here@.skip(1).skip(line_len as int),
                        before + seq![' '] + fragment@,
                    ));
                }
                pos = pos + 1 + line_len;
            },
            None => {
                return None;
            },
        }
    }
}

/// Used for parsing a single game's relevant data from the given bottle `.yml` file's contents
pub fn scan_game_from_bottle_yml(content: &[char]) -> (r: Option<(usize, ParsableBottleYmlData)>)
    ensures
        match r {
            Some((consumed, data)) => consumed <= content@.len() && game_from_bottle_yml(content@)
                == Some((content@.skip(consumed as int), data@)),
            None => game_from_bottle_yml(content@) is None,
        },
{
    // GAME DIR
    let key_game_dir = to_chars("folder:");
    proof {
        reveal_strlit("folder:");
        reveal_strlit("folder");
        assert("folder:"@ =~= yml_key("folder"@));
    }
    let at_key = match find(content, key_game_dir.as_slice()) {
        Some(at_key) => at_key,
        None => {
            return None;
        },
    };
    let (pos, rest) = step(content, 0, at_key);
    let (to_slash, _) = scan_till(rest, CharClass::Only('/'));
    let (pos, rest) = step(content, pos, to_slash);
    let (first_len, first_path_fragment) = scan_till(rest, CharClass::Only('\n'));
    let (pos, rest) = step(content, pos, first_len);
    // Path can be split into multiple lines unfortunately
    let (continued, game_dir) = match scan_folder_continuation(rest, first_path_fragment) {
        Some(found) => found,
        None => {
            return None;
        },
    };
    let (pos, rest) = step(content, pos, continued);
    // ID
    let key_id = to_chars("id");
    let (consumed, id) = match scan_value_yml(rest, key_id.as_slice()) {
        Some(found) => found,
        None => {
            return None;
        },
    };
    let (pos, rest) = step(content, pos, consumed);
    Some((pos, ParsableBottleYmlData { id: to_text(id), game_dir: to_text(game_dir.as_slice()) }))
}

/// The icon of a game: what follows `icon: ` on its line, and, unless the
/// next line that is not blank holds `id:`, that line too, after one space.
/// `at_key` is the text from the key `icon` on.
pub open spec fn icon_value(at_key: Seq<char>) -> Option<(Seq<char>, Seq<char>)> {
    if !occurs_at(at_key, "icon: "@, 0) {
        None
    } else {
        let (after_line1, line1) = till_end_of_line(at_key.skip("icon: "@.len() as int));
        let next = trimmed_start(after_line1);
        let (after_line2, line2) = till_end_of_line(next);
        if first_occurrence(line2, "id:"@) is Some {
            Some((next, line1))
        } else {
            Some((after_line2, line1 + seq![' '] + line2))
        }
    }
}

/// The name of the box art: what follows `: grid:` to the end of the line,
/// where `rest` starts so.
pub open spec fn box_art_value(rest: Seq<char>) -> Option<Seq<char>> {
    if occurs_at(rest, ": grid:"@, 0) {
        Some(till_end_of_line(rest.skip(": grid:"@.len() as int)).1)
    } else {
        None
    }
}

/// The name of a key that starts with a letter or a digit, skipped: what
/// is left starts at the colon.
pub open spec fn after_key_name(at_key: Seq<char>) -> Option<Seq<char>> {
    match take_till1(not_alphanumeric(at_key).0, CharClass::Only(':')) {
        Some((rest, _)) => Some(rest),
        None => None,
    }
}

/// One game of the library file: the values of `name`, `path`, `icon`, `id`,
/// `name` (the title) and `thumbnail`, each looked for after the one before.
/// Only the box art may be missing.
pub open spec fn game_from_library(content: Seq<char>) -> Option<(Seq<char>, LibraryRecord)> {
    match value_yml(content, "name"@) {
        Some((after_name, bottle_name)) => match value_yml(after_name, "path"@) {
            Some((after_path, bottle_subdir)) => match until_key(after_path, yml_key("icon"@)) {
                Some((at_icon, _)) => match icon_value(at_icon) {
                    Some((after_icon, icon)) => match value_yml(after_icon, "id"@) {
                        Some((after_id, id)) => match value_yml(after_id, "name"@) {
                            Some((after_title, title)) => match until_key(
                                after_title,
                                yml_key("thumbnail"@),
                            ) {
                                Some((at_thumbnail, _)) => match after_key_name(at_thumbnail) {
                                    Some(rest) => Some(
                                        (
                                            rest,
                                            LibraryRecord {
                                                id,
                                                title,
                                                icon,
                                                box_art: box_art_value(rest),
                                                bottle_name,
                                                bottle_subdir,
                                            },
                                        ),
                                    ),
                                    None => None,
                                },
                                None => None,
                            },
                            None => None,
                        },
                        None => None,
                    },
                    None => None,
                },
                None => None,
            },
            None => None,
        },
        None => None,
    }
}

/// The icon is read from an end of the text.
pub proof fn lemma_icon_value_leaves_suffix(at_key: Seq<char>)
    ensures
        icon_value(at_key) matches Some((rest, _)) ==> is_suffix(rest, at_key),
{
    if icon_value(at_key) is Some {
        let after_tag = at_key.skip("icon: "@.len() as int);
        lemma_skip_is_suffix(at_key, "icon: "@.len() as int);
        lemma_take_till_leaves_suffix(after_tag, CharClass::Only('\n'));
        let after_line1 = till_end_of_line(after_tag).0;
        lemma_run_end(after_line1, CharClass::Whitespace, true);
        let next = trimmed_start(after_line1);
        lemma_skip_is_suffix(
            after_line1,
            first_outside(after_line1, CharClass::Whitespace),
        );
        lemma_take_till_leaves_suffix(next, CharClass::Only('\n'));
        lemma_suffix_of_suffix(after_line1, after_tag, at_key);
        lemma_suffix_of_suffix(next, after_line1, at_key);
        lemma_suffix_of_suffix(till_end_of_line(next).0, next, at_key);
    }
}

/// A game of the library file is found after at least one character.
pub proof fn lemma_game_from_library_shrinks(content: Seq<char>)
    ensures
        game_from_library(content) matches Some((rest, _)) ==> is_proper_suffix(rest, content),
{
    if game_from_library(content) is Some {
        lemma_value_yml_shrinks(content, "name"@);
        let after_name = (value_yml(content, "name"@)->0).0;
        lemma_value_yml_shrinks(after_name, "path"@);
        let after_path = (value_yml(after_name, "path"@)->0).0;
        lemma_after_key_leaves_suffix(after_path, yml_key("icon"@));
        let at_icon = (until_key(after_path, yml_key("icon"@))->0).0;
        lemma_icon_value_leaves_suffix(at_icon);
        let after_icon = (icon_value(at_icon)->0).0;
        lemma_value_yml_shrinks(after_icon, "id"@);
        let after_id = (value_yml(after_icon, "id"@)->0).0;
        lemma_value_yml_shrinks(after_id, "name"@);
        let after_title = (value_yml(after_id, "name"@)->0).0;
        lemma_after_key_leaves_suffix(after_title, yml_key("thumbnail"@));
        let at_thumbnail = (until_key(after_title, yml_key("thumbnail"@))->0).0;
        lemma_take_till_leaves_suffix(at_thumbnail, CharClass::Alphanumeric);
        let at_name = not_alphanumeric(at_thumbnail).0;
        lemma_take_till1_shrinks(at_name, CharClass::Only(':'));
        let rest = after_key_name(at_thumbnail)->0;
        lemma_suffix_of_suffix(after_path, after_name, content);
        lemma_suffix_of_suffix(at_icon, after_path, content);
        lemma_suffix_of_suffix(after_icon, at_icon, content);
        lemma_suffix_of_suffix(after_id, after_icon, content);
        lemma_suffix_of_suffix(after_title, after_id, content);
        lemma_suffix_of_suffix(at_thumbnail, after_title, content);
        lemma_suffix_of_suffix(at_name, at_thumbnail, content);
        lemma_suffix_of_suffix(rest, at_name, content);
    }
}

fn scan_icon_value(at_key: &[char]) -> (r: Option<(usize, Vec<char>)>)
    ensures
        match r {
            Some((consumed, icon)) => consumed <= at_key@.len() && icon_value(at_key@) == Some(
                (at_key@.skip(consumed as int), icon@),
            ),
            None => icon_value(at_key@) is None,
        },
{
    let tag = to_chars("icon: ");
    if !matches_at(at_key, tag.as_slice(), 0) {
        return None;
    }
    let (pos, rest) = step(at_key, 0, tag.len());
    let (line1_len, line1) = scan_till(rest, CharClass::Only('\n'));
    let (pos, rest) = step(at_key, pos, line1_len);
    let blank = trim_start_len(rest);
    let (pos, rest) = step(at_key, pos, blank);
    let (line2_len, line2) = scan_till(rest, CharClass::Only('\n'));
    let mut icon: Vec<char> = Vec::new();
    extend_chars(&mut icon, line1);
    let key_id = to_chars("id:");
    if contains_text(line2, key_id.as_slice()) {
        proof {
            assert(icon@ =~= line1@);
        }
        Some((pos, icon))
    } else {
        icon.push(' ');
        extend_chars(&mut icon, line2);
        let (pos, rest) = step(at_key, pos, line2_len);
        proof {
            assert(icon@ =~= line1@ + seq![' '] + line2@);
        }
        Some((pos, icon))
    }
}

fn scan_box_art_value(rest: &[char]) -> (r: Option<String>)
    ensures
        text_of(r) == box_art_value(rest@),
{
    let tag = to_chars(": grid:");
    if matches_at(rest, tag.as_slice(), 0) {
        let (_, box_art) = scan_till(tail(rest, tag.len()), CharClass::Only('\n'));
        Some(to_text(box_art))
    } else {
        None
    }
}

/// Used for parsing relevant games' data from the given bottle library file's contents
pub fn scan_game_from_library(content: &[char]) -> (r: Option<(usize, ParsableLibraryData)>)
    ensures
        match r {
            Some((consumed, data)) => consumed <= content@.len() && game_from_library(content@)
                == Some((content@.skip(consumed as int), data@)),
            None => game_from_library(content@) is None,
        },
{
    let key_name = to_chars("name");
    let key_path = to_chars("path");
    let key_icon = to_chars("icon:");
    let key_id = to_chars("id");
    let key_thumbnail = to_chars("thumbnail:");
    proof {
        reveal_strlit("icon:");
        reveal_strlit("icon");
        assert("icon:"@ =~= yml_key("icon"@));
        reveal_strlit("thumbnail:");
        reveal_strlit("thumbnail");
        assert("thumbnail:"@ =~= yml_key("thumbnail"@));
        assert(content@.skip(0) =~= content@);
    }
    // BOTTLE NAME
    let (consumed, bottle_name) = match scan_value_yml(content, key_name.as_slice()) {
        Some(found) => found,
        None => {
            return None;
        },
    };
    let (pos, rest) = step(content, 0, consumed);
    // BOTTLE SUBDIR
    let (consumed, bottle_subdir) = match scan_value_yml(rest, key_path.as_slice()) {
        Some(found) => found,
        None => {
            return None;
        },
    };
    let (pos, rest) = step(content, pos, consumed);
    // ICON
    let at_icon = match find(rest, key_icon.as_slice()) {
        Some(at_icon) => at_icon,
        None => {
            return None;
        },
    };
    let (pos, rest) = step(content, pos, at_icon);
    let (consumed, icon) = match scan_icon_value(rest) {
        Some(found) => found,
        None => {
            return None;
        },
    };
    let (pos, rest) = step(content, pos, consumed);
    // ID
    let (consumed, id) = match scan_value_yml(rest, key_id.as_slice()) {
        Some(found) => found,
        None => {
            return None;
        },
    };
    let (pos, rest) = step(content, pos, consumed);
    // TITLE
    let (consumed, title) = match scan_value_yml(rest, key_name.as_slice()) {
        Some(found) => found,
        None => {
            return None;
        },
    };
    let (pos, rest) = step(content, pos, consumed);
    // BOX ART
    let at_thumbnail = match find(rest, key_thumbnail.as_slice()) {
        Some(at_thumbnail) => at_thumbnail,
        None => {
            return None;
        },
    };
    let (pos, rest) = step(content, pos, at_thumbnail);
    let (skipped, _) = scan_till(rest, CharClass::Alphanumeric);
    let (pos, rest) = step(content, pos, skipped);
    let (consumed, _) = match scan_till1(rest, CharClass::Only(':')) {
        Some(found) => found,
        None => {
            return None;
        },
    };
    let (pos, rest) = step(content, pos, consumed);
    let box_art = scan_box_art_value(rest);
    Some(
        (
            pos,
            ParsableLibraryData {
                id: to_text(id),
                title: to_text(title),
                bottle_subdir: to_text(bottle_subdir),
                bottle_name: to_text(bottle_name),
                box_art,
                icon: to_text(icon.as_slice()),
            },
        ),
    )
}

/// Reads the games of the library file, one after the other.
pub struct LibraryScanner;

/// Reads the programs of a bottle's file, one after the other.
pub struct BottleYmlScanner;

impl RecordScanner for LibraryScanner {
    type Record = ParsableLibraryData;

    open spec fn extract(&self, text: Seq<char>) -> Option<(Seq<char>, LibraryRecord)> {
        game_from_library(text)
    }

    proof fn extract_shrinks(&self, text: Seq<char>) {
        lemma_game_from_library_shrinks(text);
    }

    fn extract_next(&self, text: &[char]) -> (r: Option<(usize, ParsableLibraryData)>) {
        scan_game_from_library(text)
    }
}

impl RecordScanner for BottleYmlScanner {
    type Record = ParsableBottleYmlData;

    open spec fn extract(&self, text: Seq<char>) -> Option<(Seq<char>, BottleYmlRecord)> {
        game_from_bottle_yml(text)
    }

    proof fn extract_shrinks(&self, text: Seq<char>) {
        lemma_game_from_bottle_yml_shrinks(text);
    }

    fn extract_next(&self, text: &[char]) -> (r: Option<(usize, ParsableBottleYmlData)>) {
        scan_game_from_bottle_yml(text)
    }
}

/// A game of the library and a program of a bottle belong together where
/// their ids are equal.
pub struct JoinById;

impl JoinRule for JoinById {
    type Primary = ParsableLibraryData;

    type Secondary = ParsableBottleYmlData;

    type Joined = ParsableDataCombined;

    open spec fn matches(&self, primary: LibraryRecord, secondary: BottleYmlRecord) -> bool {
        secondary.id == primary.id
    }

    open spec fn merged(&self, primary: LibraryRecord, secondary: BottleYmlRecord) -> CombinedRecord {
        combined(primary, secondary)
    }

    fn is_match(&self, primary: &ParsableLibraryData, secondary: &ParsableBottleYmlData) -> (r:
        bool) {
        secondary.id == primary.id
    }

    fn merge(&self, primary: &ParsableLibraryData, secondary: &ParsableBottleYmlData) -> (r:
        ParsableDataCombined) {
        ParsableDataCombined::combine(primary, secondary)
    }
}

/// The programs of all bottles: those of the first file, then those of the
/// second, and so on.
pub open spec fn all_bottles(bottle_files: Seq<Seq<char>>) -> Seq<BottleYmlRecord>
    decreases bottle_files.len(),
{
    if bottle_files.len() == 0 {
        Seq::empty()
    } else {
        all_bottles(bottle_files.drop_last()) + scan_all(&BottleYmlScanner, bottle_files.last())
    }
}

/// The games of Bottles: each game of the library with the first program of
/// any bottle that has its id. A game whose id no bottle knows is left out.
pub open spec fn game_data(library_file: Seq<char>, bottle_files: Seq<Seq<char>>) -> Seq<
    CombinedRecord,
> {
    inner_join(&JoinById, scan_all(&LibraryScanner, library_file), all_bottles(bottle_files))
}

// BOTTLES LAUNCHER ----------------------------------------------------------------------
#[derive(Debug)]
pub struct Bottles {
    pub path_bottles_dir: String,
    pub path_bottles_library: String,
    pub is_using_flatpak: bool,
}

/// What is asked of the file system for one game.
pub struct Found {
    pub box_art: bool,
    pub game_dir: bool,
    pub icon: bool,
}

impl Bottles {
    /// The data directory of Bottles: the native one where it was found,
    /// else the one of the flatpak.
    pub open spec fn data_dir(path_home: Seq<char>, path_data: Seq<char>, native_found: bool) -> Seq<
        char,
    > {
        if native_found {
            joined(path_data, "bottles"@)
        } else {
            joined(path_home, ".var/app/com.usebottles.bottles/data/bottles"@)
        }
    }

    /// The source of the games of this launcher.
    pub fn get_launcher_type(&self) -> (r: SupportedLaunchers)
        ensures
            r == SupportedLaunchers::Bottles,
    {
        SupportedLaunchers::Bottles
    }

    /// Asks the file system whether the launcher is there. The answer
    /// depends on what is on disk, so nothing is stated of it.
    pub fn is_detected(&self) -> bool {
        probe(self.path_bottles_library.as_str(), PathKind::Any)
    }

    /// Whether this is the launcher for the given directories.
    pub open spec fn is_located(
        self,
        path_home: Seq<char>,
        path_data: Seq<char>,
        native_found: bool,
    ) -> bool {
        &&& self.is_using_flatpak == !native_found
        &&& self.path_bottles_dir@ == joined(
            Self::data_dir(path_home, path_data, native_found),
            "bottles"@,
        )
        &&& self.path_bottles_library@ == joined(
            Self::data_dir(path_home, path_data, native_found),
            "library.yml"@,
        )
    }

    /// The launcher, once it is known whether the native data directory
    /// exists.
    pub fn located(path_home: &str, path_data: &str, native_found: bool) -> (r: Self)
        ensures
            r.is_located(path_home@, path_data@, native_found),
    {
        let path_bottles_data = if native_found {
            join_path(path_data, "bottles")
        } else {
            join_path(path_home, ".var/app/com.usebottles.bottles/data/bottles")
        };
        Bottles {
            path_bottles_dir: join_path(path_bottles_data.as_str(), "bottles"),
            path_bottles_library: join_path(path_bottles_data.as_str(), "library.yml"),
            is_using_flatpak: !native_found,
        }
    }

    /// Looks for the native data directory and falls back to the flatpak's
    /// where it is missing.
    pub fn new(path_home: &str, path_data: &str) -> (r: Self)
        ensures
            r.is_located(path_home@, path_data@, true) || r.is_located(
                path_home@,
                path_data@,
                false,
            ),
    {
        let path_bottles_data = join_path(path_data, "bottles");
        let native_found = probe(path_bottles_data.as_str(), PathKind::Dir);
        Self::located(path_home, path_data, native_found)
    }

    /// Parse data from a given `bottle.yml` file
    pub fn get_parsable_bottle_yml_data(file_content: &str) -> (r: Vec<ParsableBottleYmlData>)
        ensures
            views(r@) == scan_all(&BottleYmlScanner, file_content@),
    {
        let chars = to_chars(file_content);
        scan_records(&BottleYmlScanner, chars.as_slice())
    }

    /// Parse data from all `bottle.yml` files
    pub fn parse_all_bottles(bottle_files: &Vec<String>) -> (r: Vec<ParsableBottleYmlData>)
        ensures
            views(r@) == all_bottles(views(bottle_files@)),
    {
        let mut parsed: Vec<ParsableBottleYmlData> = Vec::new();
        let mut i: usize = 0;
        proof {
            assert(views(bottle_files@).take(0) =~= Seq::empty());
            assert(views(parsed@) =~= Seq::empty());
        }
        while i < bottle_files.len()
            invariant
                i <= bottle_files.len(),
                views(parsed@) == all_bottles(views(bottle_files@).take(i as int)),
            decreases bottle_files.len() - i,
        {
            let mut of_file = Self::get_parsable_bottle_yml_data(bottle_files[i].as_str());
            proof {
                let upto = views(bottle_files@).take(i + 1);
                assert(upto.drop_last() =~= views(bottle_files@).take(i as int));
                assert(upto.last() == bottle_files[i as int]@);
                lemma_views_add(parsed@, of_file@);
            }
            parsed.append(&mut of_file);
            i += 1;
        }
        proof {
            assert(views(bottle_files@).take(bottle_files@.len() as int) =~= views(bottle_files@));
        }
        parsed
    }

    /// Parse data from the Bottle's `library.yml` file
    pub fn parse_bottles_library(library_file_content: &str) -> (r: Vec<ParsableLibraryData>)
        ensures
            views(r@) == scan_all(&LibraryScanner, library_file_content@),
    {
        let chars = to_chars(library_file_content);
        scan_records(&LibraryScanner, chars.as_slice())
    }

    /// Get all relevant game data by combining data from the `library.yml` file and
    /// each bottle's `.yml` file. Data is matched using game ID.
    pub fn parse_game_data(library_file_content: &str, bottle_files: &Vec<String>) -> (r: Vec<
        ParsableDataCombined,
    >)
        ensures
            views(r@) == game_data(library_file_content@, views(bottle_files@)),
    {
        let parsed_library_data = Self::parse_bottles_library(library_file_content);
        let parsed_bottles_data = Self::parse_all_bottles(bottle_files);
        reconcile(&JoinById, &parsed_library_data, &parsed_bottles_data)
    }

    /// The command that runs the program `title` of the bottle
    /// `bottle_name`.
    pub open spec fn launch_command_of(
        is_using_flatpak: bool,
        title: Seq<char>,
        bottle_name: Seq<char>,
    ) -> LaunchCommandView {
        let base_args = seq!["run"@, "-p"@, title, "-b"@, bottle_name];
        if is_using_flatpak {
            LaunchCommandView {
                program: "flatpak"@,
                args: flatpak_args_of(
                    "com.usebottles.bottles"@,
                    seq!["--command=bottles-cli"@],
                    base_args,
                ),
                envs: Seq::empty(),
            }
        } else {
            LaunchCommandView { program: "bottles-cli"@, args: base_args, envs: Seq::empty() }
        }
    }

    /// Where the box art `box_art` of a bottle is kept.
    pub open spec fn box_art_path(
        path_bottles_dir: Seq<char>,
        bottle_subdir: Seq<char>,
        box_art: Seq<char>,
    ) -> Seq<char> {
        joined(path_bottles_dir, bottle_subdir + "/grids/"@ + box_art)
    }

    /// The game made of `data`, given what was found on disk. The title is
    /// cleaned; the command carries the title as the library has it.
    pub open spec fn game_of(self, data: CombinedRecord, found: Found) -> GameView {
        GameView {
            title: cleaned_title(data.title),
            path_icon: if found.icon {
                Some(data.path_icon)
            } else {
                None
            },
            path_box_art: match data.box_art {
                Some(box_art) => if found.box_art {
                    Some(Self::box_art_path(self.path_bottles_dir@, data.bottle_subdir, box_art))
                } else {
                    None
                },
                None => None,
            },
            path_game_dir: if found.game_dir {
                Some(data.game_dir)
            } else {
                None
            },
            launch_command: Self::launch_command_of(
                self.is_using_flatpak,
                data.title,
                data.bottle_name,
            ),
            source: SupportedLaunchers::Bottles,
        }
    }

    /// `game` is the game made of `data`, whatever was found on disk.
    pub open spec fn is_game_of(self, game: GameView, data: CombinedRecord) -> bool {
        exists|found: Found| game == self.game_of(data, found)
    }

    /// The path of the box art of `data`, if it names one.
    pub fn box_art_path_of(&self, data: &ParsableDataCombined) -> (r: Option<String>)
        ensures
            text_of(r) == match data@.box_art {
                Some(box_art) => Some(
                    Self::box_art_path(self.path_bottles_dir@, data@.bottle_subdir, box_art),
                ),
                None => None,
            },
    {
        match &data.box_art {
            Some(box_art) => {
                let mut below = data.bottle_subdir.clone();
                below.append("/grids/");
                below.append(box_art.as_str());
                Some(join_path(self.path_bottles_dir.as_str(), below.as_str()))
            },
            None => None,
        }
    }

    /// Builds the game of `data` from what was found on disk.
    pub fn game_from(&self, data: &ParsableDataCombined, found: Found) -> (r: Game)
        ensures
            r@ == self.game_of(data@, found),
    {
        let launch_command = {
            let base_args = [
                "run",
                "-p",
                data.title.as_str(),
                "-b",
                data.bottle_name.as_str(),
            ];
            proof {
                assert(views(base_args@) =~= seq![
                    "run"@,
                    "-p"@,
                    data.title@,
                    "-b"@,
                    data.bottle_name@,
                ]);
                assert(views(no_env_vars_view()) =~= Seq::empty());
            }
            if self.is_using_flatpak {
                let flatpak_args = ["--command=bottles-cli"];
                proof {
                    assert(views(flatpak_args@) =~= seq!["--command=bottles-cli"@]);
                }
                get_launch_command_flatpak(
                    "com.usebottles.bottles",
                    flatpak_args.as_slice(),
                    base_args.as_slice(),
                    no_env_vars(),
                )
            } else {
                get_launch_command("bottles-cli", base_args.as_slice(), no_env_vars())
            }
        };
        let path_box_art = match self.box_art_path_of(data) {
            Some(path) => keep_if(path, found.box_art),
            None => None,
        };
        Game {
            title: clean_game_title(data.title.as_str()),
            path_icon: keep_if(data.path_icon.clone(), found.icon),
            launch_command,
            path_box_art,
            path_game_dir: keep_if(data.game_dir.clone(), found.game_dir),
            source: LAUNCHER,
        }
    }

    /// Asks the file system for the box art, the directory and the icon of
    /// `data`. A record that names no box art has none, whatever is on disk.
    pub fn look_for(&self, data: &ParsableDataCombined) -> (r: Found)
        ensures
            data@.box_art is None ==> !r.box_art,
    {
        let box_art = match self.box_art_path_of(data) {
            Some(path) => probe(path.as_str(), PathKind::File),
            None => false,
        };
        Found {
            box_art,
            game_dir: probe(data.game_dir.as_str(), PathKind::Dir),
            icon: probe(data.path_icon.as_str(), PathKind::File),
        }
    }

    /// The games of Bottles: one for each record of the join, in its order,
    /// each built from what the file system holds for it.
    pub fn get_detected_games(&self, parsed_data: &Vec<ParsableDataCombined>) -> (r: Vec<Game>)
        ensures
            r.len() == parsed_data.len(),
            forall|i: int|
                0 <= i < r.len() ==> self.is_game_of(#[trigger] r[i]@, parsed_data[i]@),
    {
        let mut games: Vec<Game> = Vec::new();
        let mut i: usize = 0;
        while i < parsed_data.len()
            invariant
                i <= parsed_data.len(),
                games.len() == i,
                forall|k: int|
                    0 <= k < i ==> self.is_game_of(#[trigger] games[k]@, parsed_data[k]@),
            decreases parsed_data.len() - i,
        {
            let found = self.look_for(&parsed_data[i]);
            let game = self.game_from(&parsed_data[i], found);
            proof {
                assert(self.is_game_of(game@, parsed_data[i as int]@));
            }
            games.push(game);
            i += 1;
        }
        games
    }
}

// THE JOIN BY ID -----------------------------------------------------------------------
/// No two games of the library have the same id.
pub open spec fn library_ids_once(library: Seq<LibraryRecord>) -> bool {
    forall|i: int, h: int|
        0 <= i < h < library.len() ==> (#[trigger] library[i]).id != (#[trigger] library[h]).id
}

/// No two programs of the bottles have the same id.
pub open spec fn bottle_ids_once(bottles: Seq<BottleYmlRecord>) -> bool {
    forall|j: int, k: int|
        0 <= j < k < bottles.len() ==> (#[trigger] bottles[j]).id != (#[trigger] bottles[k]).id
}

/// With every id once on each side, a game and a program match one to one.
pub proof fn lemma_join_by_id_is_one_to_one(
    library: Seq<LibraryRecord>,
    bottles: Seq<BottleYmlRecord>,
)
    requires
        library_ids_once(library),
        bottle_ids_once(bottles),
    ensures
        is_one_to_one(&JoinById, library, bottles),
{
    let rule = &JoinById;
    assert forall|i: int, j: int, k: int|
        0 <= i < library.len() && 0 <= j < bottles.len() && 0 <= k < bottles.len()
            && #[trigger] rule.matches(library[i], bottles[j]) && #[trigger] rule.matches(
            library[i],
            bottles[k],
        ) implies j == k by {
        if j < k {
            assert(bottles[j].id != bottles[k].id);
        }
        if k < j {
            assert(bottles[k].id != bottles[j].id);
        }
    }
    assert forall|i: int, h: int, j: int|
        0 <= i < library.len() && 0 <= h < library.len() && 0 <= j < bottles.len()
            && #[trigger] rule.matches(library[i], bottles[j]) && #[trigger] rule.matches(
            library[h],
            bottles[j],
        ) implies i == h by {
        if i < h {
            assert(library[i].id != library[h].id);
        }
        if h < i {
            assert(library[h].id != library[i].id);
        }
    }
}

/// With every id once on each side, the join holds exactly one record for
/// each id that both sides have, made of the game and the program of that
/// id. The pairs are the pairs of equal ids, whichever side is walked: with
/// the bottles as the primary side the same records would be paired, in the
/// order of the bottles.
pub proof fn lemma_join_by_id_pairs_the_shared_ids(
    library: Seq<LibraryRecord>,
    bottles: Seq<BottleYmlRecord>,
)
    requires
        library_ids_once(library),
        bottle_ids_once(bottles),
    ensures
        inner_join(&JoinById, library, bottles).len() == matched_pairs(
            &JoinById,
            library,
            bottles,
        ).len(),
        forall|k: int|
            0 <= k < matched_pairs(&JoinById, library, bottles).len() ==> {
                let pair = #[trigger] matched_pairs(&JoinById, library, bottles)[k];
                &&& 0 <= pair.0 < library.len()
                &&& 0 <= pair.1 < bottles.len()
                &&& inner_join(&JoinById, library, bottles)[k] == combined(
                    library[pair.0],
                    bottles[pair.1],
                )
            },
        forall|i: int, j: int|
            #[trigger] matched_pairs(&JoinById, library, bottles).contains((i, j)) <==> (0 <= i
                < library.len() && 0 <= j < bottles.len() && library[i].id == bottles[j].id),
        forall|a: int, b: int|
            0 <= a < b < matched_pairs(&JoinById, library, bottles).len() ==> (
            #[trigger] matched_pairs(&JoinById, library, bottles)[a]).0 < (
            #[trigger] matched_pairs(&JoinById, library, bottles)[b]).0 && matched_pairs(
                &JoinById,
                library,
                bottles,
            )[a].1 != matched_pairs(&JoinById, library, bottles)[b].1,
{
    let rule = &JoinById;
    let pairs = matched_pairs(rule, library, bottles);
    let joined = inner_join(rule, library, bottles);
    lemma_join_by_id_is_one_to_one(library, bottles);
    lemma_inner_join_by_pairs(rule, library, bottles);
    assert forall|k: int| 0 <= k < pairs.len() implies {
        let pair = #[trigger] pairs[k];
        &&& 0 <= pair.0 < library.len()
        &&& 0 <= pair.1 < bottles.len()
        &&& joined[k] == combined(library[pair.0], bottles[pair.1])
    } by {
        assert(is_pair_of(rule, library, bottles, pairs[k], joined[k]));
    }
    assert forall|i: int, j: int| #[trigger]
        pairs.contains((i, j)) <==> (0 <= i < library.len() && 0 <= j < bottles.len()
            && library[i].id == bottles[j].id) by {
        lemma_pairs_are_the_matches(rule, library, bottles, i, j);
    }
    assert forall|a: int, b: int| 0 <= a < b < pairs.len() implies (#[trigger] pairs[a]).0 < (
    #[trigger] pairs[b]).0 && pairs[a].1 != pairs[b].1 by {
        lemma_pairs_use_each_once(rule, library, bottles, a, b);
    }
}

// CONTINUATION LINES -------------------------------------------------------------------
/// An indent: at least one character, each a space, a tab or a carriage
/// return.
pub open spec fn is_indent(indent: Seq<char>) -> bool {
    &&& indent.len() > 0
    &&& forall|i: int|
        0 <= i < indent.len() ==> (#[trigger] indent[i] == ' ' || indent[i] == '\t' || indent[i]
            == '\r')
}

/// A part of a path that can stand on a line of its own: without line feed
/// and without colon, and not starting with a blank.
pub open spec fn is_fragment(fragment: Seq<char>) -> bool {
    &&& !fragment.contains('\n')
    &&& !fragment.contains(':')
    &&& fragment.len() > 0 ==> !CharClass::Blank.contains(fragment[0])
}

/// The text of the lines on which a path goes on: for each fragment a line
/// feed, its indent and the fragment.
pub open spec fn continuation_lines(indents: Seq<Seq<char>>, fragments: Seq<Seq<char>>) -> Seq<char>
    decreases fragments.len(),
{
    if fragments.len() == 0 || indents.len() == 0 {
        Seq::empty()
    } else {
        seq!['\n'] + indents[0] + fragments[0] + continuation_lines(
            indents.skip(1),
            fragments.skip(1),
        )
    }
}

/// The fragments on one line: each after one space.
pub open spec fn spaced(fragments: Seq<Seq<char>>) -> Seq<char>
    decreases fragments.len(),
{
    if fragments.len() == 0 {
        Seq::empty()
    } else {
        seq![' '] + fragments[0] + spaced(fragments.skip(1))
    }
}

/// A path that is split over indented lines is read as the path that
/// stands on one line with single spaces where the lines were split: the
/// lines `indents[i] + fragments[i]`, followed by the line of the next key,
/// add `spaced(fragments)` to what was read before, and leave the text at
/// the end of the last of them.
pub proof fn lemma_continuation_joins(
    indents: Seq<Seq<char>>,
    fragments: Seq<Seq<char>>,
    next: Seq<char>,
    game_dir: Seq<char>,
)
    requires
        indents.len() == fragments.len(),
        forall|i: int| 0 <= i < indents.len() ==> is_indent(#[trigger] indents[i]),
        forall|i: int| 0 <= i < fragments.len() ==> is_fragment(#[trigger] fragments[i]),
        next.len() > 0,
        next[0] == '\n',
        till_end_of_line(next.skip(1)).1.contains(':'),
    ensures
        folder_continuation(continuation_lines(indents, fragments) + next, game_dir) == Some(
            (next, game_dir + spaced(fragments)),
        ),
        folder_continuation(next, game_dir + spaced(fragments)) == Some(
            (next, game_dir + spaced(fragments)),
        ),
    decreases fragments.len(),
{
    if fragments.len() == 0 {
        assert(continuation_lines(indents, fragments) + next =~= next);
        assert(game_dir + spaced(fragments) =~= game_dir);
    } else {
        let indent = indents[0];
        let fragment = fragments[0];
        let line = indent + fragment;
        let after = continuation_lines(indents.skip(1), fragments.skip(1)) + next;
        let text = continuation_lines(indents, fragments) + next;
        assert(is_indent(indent));
        assert(is_fragment(fragment));
        assert(text =~= seq!['\n'] + line + after);
        assert(after.len() > 0 && after[0] == '\n') by {
            if fragments.len() == 1 {
                assert(continuation_lines(indents.skip(1), fragments.skip(1)) =~= Seq::empty());
                assert(after =~= next);
            } else {
                assert(is_indent(indents.skip(1)[0]));
            }
        }
        let body = text.skip(1);
        assert(body =~= line + after);
        assert(is_run_end(body, CharClass::Only('\n'), false, line.len() as int)) by {
            assert forall|i: int| 0 <= i < line.len() implies CharClass::Only('\n').contains(
                #[trigger] body[i],
            ) == false by {
                if i < indent.len() {
                    assert(body[i] == indent[i]);
                } else {
                    assert(body[i] == fragment[i - indent.len()]);
                    assert(fragment.contains(fragment[i - indent.len()]));
                }
            }
            assert(body[line.len() as int] == after[0]);
        }
        lemma_run_end_is(body, CharClass::Only('\n'), false, line.len() as int);
        assert(body.take(line.len() as int) =~= line);
        assert(body.skip(line.len() as int) =~= after);
        assert(!line.contains(':')) by {
            if line.contains(':') {
                let at = choose|at: int| 0 <= at < line.len() && line[at] == ':';
                if at < indent.len() {
                    assert(line[at] == indent[at]);
                } else {
                    assert(line[at] == fragment[at - indent.len()]);
                    assert(fragment.contains(':'));
                }
            }
        }
        assert(is_run_end(line, CharClass::Blank, true, indent.len() as int)) by {
            assert forall|i: int| 0 <= i < indent.len() implies CharClass::Blank.contains(
                #[trigger] line[i],
            ) == true by {
                assert(line[i] == indent[i]);
            }
            if indent.len() < line.len() {
                assert(line[indent.len() as int] == fragment[0]);
            }
        }
        lemma_run_end_is(line, CharClass::Blank, true, indent.len() as int);
        assert(line.skip(indent.len() as int) =~= fragment);
        let more = game_dir + seq![' '] + fragment;
        assert forall|i: int| 0 <= i < indents.skip(1).len() implies is_indent(
            #[trigger] indents.skip(1)[i],
        ) by {
            assert(indents.skip(1)[i] == indents[i + 1]);
        }
        assert forall|i: int| 0 <= i < fragments.skip(1).len() implies is_fragment(
            #[trigger] fragments.skip(1)[i],
        ) by {
            assert(fragments.skip(1)[i] == fragments[i + 1]);
        }
        lemma_continuation_joins(indents.skip(1), fragments.skip(1), next, more);
        assert(more + spaced(fragments.skip(1)) =~= game_dir + spaced(fragments));
    }
}

/// The fragments on one line hold no line feed.
pub proof fn lemma_spaced_has_no_line_feed(fragments: Seq<Seq<char>>)
    requires
        forall|i: int| 0 <= i < fragments.len() ==> is_fragment(#[trigger] fragments[i]),
    ensures
        !spaced(fragments).contains('\n'),
    decreases fragments.len(),
{
    if fragments.len() > 0 {
        assert forall|i: int| 0 <= i < fragments.skip(1).len() implies is_fragment(
            #[trigger] fragments.skip(1)[i],
        ) by {
            assert(fragments.skip(1)[i] == fragments[i + 1]);
        }
        lemma_spaced_has_no_line_feed(fragments.skip(1));
        let line = spaced(fragments);
        let later = spaced(fragments.skip(1));
        assert(is_fragment(fragments[0]));
        if line.contains('\n') {
            let at = choose|at: int| 0 <= at < line.len() && line[at] == '\n';
            if at == 0 {
                assert(line[0] == ' ');
            } else if at < 1 + fragments[0].len() {
                assert(line[at] == fragments[0][at - 1]);
                assert(fragments[0].contains('\n'));
            } else {
                assert(line[at] == later[at - 1 - fragments[0].len()]);
                assert(later.contains('\n'));
            }
        }
    }
}

/// The lines on which a path goes on, and what follows them, start with a
/// line feed.
pub proof fn lemma_continuation_starts_line(
    indents: Seq<Seq<char>>,
    fragments: Seq<Seq<char>>,
    next: Seq<char>,
)
    requires
        next.len() > 0,
        next[0] == '\n',
    ensures
        (continuation_lines(indents, fragments) + next).len() > 0,
        (continuation_lines(indents, fragments) + next)[0] == '\n',
{
    if fragments.len() == 0 || indents.len() == 0 {
        assert(continuation_lines(indents, fragments) + next =~= next);
    } else {
        assert(continuation_lines(indents, fragments)[0] == '\n');
    }
}

/// The key `folder` with its colon holds no slash.
pub proof fn lemma_folder_key_has_no_slash()
    ensures
        !yml_key("folder"@).contains('/'),
{
    reveal_strlit("folder");
    let marker = yml_key("folder"@);
    assert(marker =~= seq!['f', 'o', 'l', 'd', 'e', 'r', ':']);
    if marker.contains('/') {
        let at = choose|at: int| 0 <= at < marker.len() && marker[at] == '/';
        assert(marker[at] != '/');
    }
}

/// A text that starts with a marker is found at the marker.
pub proof fn lemma_starts_with_key(marker: Seq<char>, more: Seq<char>)
    ensures
        until_key(marker + more, marker) == Some((marker + more, marker)),
{
    let text = marker + more;
    assert(text.subrange(0, marker.len() as int) =~= marker);
    lemma_first_occurrence_is(text, marker, 0);
    assert(text.skip(0) =~= text);
}

/// What stands before the first slash is passed over.
pub proof fn lemma_skips_to_slash(before: Seq<char>, line: Seq<char>)
    requires
        !before.contains('/'),
        line.len() > 0,
        line[0] == '/',
    ensures
        take_till(before + line, CharClass::Only('/')).0 == line,
{
    let text = before + line;
    assert(is_run_end(text, CharClass::Only('/'), false, before.len() as int)) by {
        assert forall|i: int| 0 <= i < before.len() implies CharClass::Only('/').contains(
            #[trigger] text[i],
        ) == false by {
            assert(text[i] == before[i]);
            assert(before.contains(before[i]));
        }
        assert(text[before.len() as int] == line[0]);
    }
    lemma_run_end_is(text, CharClass::Only('/'), false, before.len() as int);
    assert(text.skip(before.len() as int) =~= line);
}

/// A path without line feed is read up to the end of its line.
pub proof fn lemma_reads_path(path: Seq<char>, after: Seq<char>)
    requires
        !path.contains('\n'),
        after.len() > 0,
        after[0] == '\n',
    ensures
        till_end_of_line(path + after) == (after, path),
{
    let line = path + after;
    assert(is_run_end(line, CharClass::Only('\n'), false, path.len() as int)) by {
        assert forall|i: int| 0 <= i < path.len() implies CharClass::Only('\n').contains(
            #[trigger] line[i],
        ) == false by {
            assert(line[i] == path[i]);
            assert(path.contains(path[i]));
        }
        assert(line[path.len() as int] == after[0]);
    }
    lemma_run_end_is(line, CharClass::Only('\n'), false, path.len() as int);
    assert(line.take(path.len() as int) =~= path);
    assert(line.skip(path.len() as int) =~= after);
}

/// The line of the key `folder` gives the path from its first slash to the
/// end of the line. `gap` is what stands between the key and the path.
pub proof fn lemma_folder_line(gap: Seq<char>, path: Seq<char>, after: Seq<char>)
    requires
        !gap.contains('/'),
        path.len() > 0,
        path[0] == '/',
        !path.contains('\n'),
        after.len() > 0,
        after[0] == '\n',
    ensures
        until_key(yml_key("folder"@) + gap + path + after, yml_key("folder"@)) == Some(
            (yml_key("folder"@) + gap + path + after, yml_key("folder"@)),
        ),
        till_end_of_line(
            take_till(yml_key("folder"@) + gap + path + after, CharClass::Only('/')).0,
        ) == (after, path),
{
    let marker = yml_key("folder"@);
    let text = marker + gap + path + after;
    assert(text =~= marker + (gap + path + after));
    lemma_starts_with_key(marker, gap + path + after);
    lemma_folder_key_has_no_slash();
    let before = marker + gap;
    assert(!before.contains('/')) by {
        if before.contains('/') {
            let at = choose|at: int| 0 <= at < before.len() && before[at] == '/';
            if at < marker.len() {
                assert(before[at] == marker[at]);
                assert(marker.contains('/'));
            } else {
                assert(before[at] == gap[at - marker.len()]);
                assert(gap.contains('/'));
            }
        }
    }
    assert(text =~= before + (path + after));
    lemma_skips_to_slash(before, path + after);
    lemma_reads_path(path, after);
}

/// The program that stands first in a text, with its path on one line or
/// split over indented lines. `gap` is what stands between the key
/// `folder` and the path, `first` the part of the path on the line of the
/// key, and `next` the text from the end of the path on, which goes on with
/// the line of the next key.
pub open spec fn program_text(
    gap: Seq<char>,
    first: Seq<char>,
    indents: Seq<Seq<char>>,
    fragments: Seq<Seq<char>>,
    next: Seq<char>,
) -> Seq<char> {
    yml_key("folder"@) + gap + first + continuation_lines(indents, fragments) + next
}

/// A program is read from the line of its key `folder`, the lines on which
/// its path goes on, and the value of `id` that follows them.
pub proof fn lemma_program_from_lines(
    gap: Seq<char>,
    path: Seq<char>,
    after: Seq<char>,
    next: Seq<char>,
    game_dir: Seq<char>,
)
    requires
        !gap.contains('/'),
        path.len() > 0,
        path[0] == '/',
        !path.contains('\n'),
        after.len() > 0,
        after[0] == '\n',
        folder_continuation(after, path) == Some((next, game_dir)),
    ensures
        game_from_bottle_yml(yml_key("folder"@) + gap + path + after) == (match value_yml(
            next,
            "id"@,
        ) {
            Some((rest, id)) => Some((rest, BottleYmlRecord { id, game_dir })),
            None => None,
        }),
{
    lemma_folder_line(gap, path, after);
}

/// A path and the fragments that follow it on its line hold no line feed.
pub proof fn lemma_one_line_has_no_line_feed(first: Seq<char>, fragments: Seq<Seq<char>>)
    requires
        !first.contains('\n'),
        forall|i: int| 0 <= i < fragments.len() ==> is_fragment(#[trigger] fragments[i]),
    ensures
        !(first + spaced(fragments)).contains('\n'),
{
    lemma_spaced_has_no_line_feed(fragments);
    let line = first + spaced(fragments);
    if line.contains('\n') {
        let at = choose|at: int| 0 <= at < line.len() && line[at] == '\n';
        if at < first.len() {
            assert(line[at] == first[at]);
            assert(first.contains('\n'));
        } else {
            assert(line[at] == spaced(fragments)[at - first.len()]);
            assert(spaced(fragments).contains('\n'));
        }
    }
}

/// A program whose path is split over indented lines is read as the program
/// whose path stands on one line, with single spaces where the lines were
/// split: the same directory, the same id, and the same text left.
pub proof fn lemma_split_path_reads_as_one_line(
    gap: Seq<char>,
    first: Seq<char>,
    indents: Seq<Seq<char>>,
    fragments: Seq<Seq<char>>,
    next: Seq<char>,
)
    requires
        !gap.contains('/'),
        first.len() > 0,
        first[0] == '/',
        !first.contains('\n'),
        indents.len() == fragments.len(),
        forall|i: int| 0 <= i < indents.len() ==> is_indent(#[trigger] indents[i]),
        forall|i: int| 0 <= i < fragments.len() ==> is_fragment(#[trigger] fragments[i]),
        next.len() > 0,
        next[0] == '\n',
        till_end_of_line(next.skip(1)).1.contains(':'),
    ensures
        game_from_bottle_yml(program_text(gap, first, indents, fragments, next))
            == game_from_bottle_yml(
            program_text(gap, first + spaced(fragments), Seq::empty(), Seq::empty(), next),
        ),
        game_from_bottle_yml(program_text(gap, first, indents, fragments, next)) == (
        match value_yml(next, "id"@) {
            Some((rest, id)) => Some(
                (rest, BottleYmlRecord { id, game_dir: first + spaced(fragments) }),
            ),
            None => None,
        }),
{
    let game_dir = first + spaced(fragments);
    let marker = yml_key("folder"@);
    // The path split over lines
    let after = continuation_lines(indents, fragments) + next;
    lemma_continuation_starts_line(indents, fragments, next);
    lemma_continuation_joins(indents, fragments, next, first);
    lemma_program_from_lines(gap, first, after, next, game_dir);
    let split = program_text(gap, first, indents, fragments, next);
    assert(split == marker + gap + first + after) by {
        assert(split =~= marker + gap + first + after);
    }
    // The path on one line
    lemma_one_line_has_no_line_feed(first, fragments);
    assert(game_dir[0] == first[0]);
    lemma_program_from_lines(gap, game_dir, next, next, game_dir);
    let single = program_text(gap, game_dir, Seq::empty(), Seq::empty(), next);
    assert(single == marker + gap + game_dir + next) by {
        assert(continuation_lines(Seq::empty(), Seq::empty()) =~= Seq::<char>::empty());
        assert(single =~= marker + gap + game_dir + next);
    }
}

} // verus!
