//! Lutris: the games of the cache's file of game paths, joined by the name
//! of their executable with the games that the configuration files describe.

use vstd::prelude::*;
use vstd::string::*;
use itertools::Itertools;
use crate::data::{Game, GameView, SupportedLaunchers};
use crate::linux::launchers::lutris_sort::sort_by_run_id;
use crate::parsers::{
    double_quoted_key_value, scan_double_quoted_key_value, scan_till, scan_value_yml, step,
    till_end_of_line, until_key, value_yml, yml_key,
};
use crate::reconcile::{inner_join, reconcile, JoinRule};
use crate::text::{
    compare_texts, contains_char, extend_chars, find, find_last, head,
    lemma_text_order_antisymmetric, lemma_text_order_same, lemma_views_push, split_at_last, tail,
    text_of, text_order, to_chars, to_text, trim, trimmed, views, CharClass, TextOrder,
};
use crate::utils::commands::{
    flatpak_args_of, get_launch_command, get_launch_command_flatpak, LaunchCommandView,
};
use crate::utils::paths::{
    image_path_of, join_path, joined, keep_if, pick_image_path, picked_image_path, probe, PathKind,
};
use crate::utils::strings::{clean_game_title, cleaned_title};

verus! {

/// What the file of game paths says of one game.
#[derive(Debug, Clone)]
pub struct ParsableGamePathsData {
    pub game_dir: String,
    pub executable_name: String,
    pub run_id: String,
}

/// What the configuration file of a game says.
#[derive(Debug, Clone)]
pub struct ParsableGameYmlData {
    pub executable_name: String,
    pub title: String,
    // For some reason Lutris uses 2 different "slug" options, and images are mostly named using
    // `game_slug` but sometimes use `slug` instead
    pub game_slug: Option<String>,
    pub slug: String,
}

/// The paths of a game with what its configuration file says.
#[derive(Debug)]
pub struct ParsableDataCombined {
    pub game_dir: String,
    pub run_id: String,
    pub title: String,
    pub game_slug: Option<String>,
    pub slug: String,
}

/// What the file of game paths says of one game, as text.
pub struct GamePathsRecord {
    pub game_dir: Seq<char>,
    pub executable_name: Seq<char>,
    pub run_id: Seq<char>,
}

/// What the configuration file of a game says, as text.
pub struct GameYmlRecord {
    pub executable_name: Seq<char>,
    pub title: Seq<char>,
    pub game_slug: Option<Seq<char>>,
    pub slug: Seq<char>,
}

/// A joined record, as text.
pub struct CombinedRecord {
    pub game_dir: Seq<char>,
    pub run_id: Seq<char>,
    pub title: Seq<char>,
    pub game_slug: Option<Seq<char>>,
    pub slug: Seq<char>,
}

impl View for ParsableGamePathsData {
    type V = GamePathsRecord;

    open spec fn view(&self) -> GamePathsRecord {
        GamePathsRecord {
            game_dir: self.game_dir@,
            executable_name: self.executable_name@,
            run_id: self.run_id@,
        }
    }
}

impl View for ParsableGameYmlData {
    type V = GameYmlRecord;

    open spec fn view(&self) -> GameYmlRecord {
        GameYmlRecord {
            executable_name: self.executable_name@,
            title: self.title@,
            game_slug: text_of(self.game_slug),
            slug: self.slug@,
        }
    }
}

impl View for ParsableDataCombined {
    type V = CombinedRecord;

    open spec fn view(&self) -> CombinedRecord {
        CombinedRecord {
            game_dir: self.game_dir@,
            run_id: self.run_id@,
            title: self.title@,
            game_slug: text_of(self.game_slug),
            slug: self.slug@,
        }
    }
}

/// The paths of a game and what its configuration file says, as one record.
pub open spec fn combined(paths_data: GamePathsRecord, yml_data: GameYmlRecord) -> CombinedRecord {
    CombinedRecord {
        game_dir: paths_data.game_dir,
        run_id: paths_data.run_id,
        title: yml_data.title,
        game_slug: yml_data.game_slug,
        slug: yml_data.slug,
    }
}

impl ParsableDataCombined {
    /// Makes one record of the two.
    pub fn combine(paths_data: &ParsableGamePathsData, yml_data: &ParsableGameYmlData) -> (r: Self)
        ensures
            r@ == combined(paths_data@, yml_data@),
    {
        ParsableDataCombined {
            game_dir: paths_data.game_dir.clone(),
            run_id: paths_data.run_id.clone(),
            title: yml_data.title.clone(),
            game_slug: match &yml_data.game_slug {
                Some(game_slug) => Some(game_slug.clone()),
                None => None,
            },
            slug: yml_data.slug.clone(),
        }
    }
}

/// The source of the games that this module detects.
pub const LAUNCHER: SupportedLaunchers = SupportedLaunchers::Lutris;

// UTILS --------------------------------------------------------------------------------
/// The upper case form of an ASCII lower case letter; any other character
/// as it is.
pub open spec fn ascii_uppercase(c: char) -> char {
    if 'a' <= c && c <= 'z' {
        ((c as u8) - 32) as u8 as char
    } else {
        c
    }
}

/// The title guessed from a slug: each hyphen becomes a space, and the first
/// character, if it is an ASCII lower case letter, its upper case form.
pub open spec fn title_from_slug(slug: Seq<char>) -> Seq<char> {
    Seq::new(
        slug.len(),
        |i: int|
            {
                let c = if slug[i] == '-' {
                    ' '
                } else {
                    slug[i]
                };
                if i == 0 {
                    ascii_uppercase(c)
                } else {
                    c
                }
            },
    )
}

/// Guesses the title of a game from its slug.
pub fn derive_title(slug: &[char]) -> (title: Vec<char>)
    ensures
        title@ == title_from_slug(slug@),
{
    let mut title: Vec<char> = Vec::new();
    let mut i: usize = 0;
    while i < slug.len()
        invariant
            i <= slug.len(),
            title@ == title_from_slug(slug@).take(i as int),
        decreases slug.len() - i,
    {
        let c = if slug[i] == '-' {
            ' '
        } else {
            slug[i]
        };
        if i == 0 && c >= 'a' && c <= 'z' {
            let lower: u8 = c as u8;
            title.push((lower - 32) as char);
        } else {
            title.push(c);
        }
        i += 1;
        proof {
            assert(title@ =~= title_from_slug(slug@).take(i as int));
        }
    }
    proof {
        assert(title_from_slug(slug@).take(slug@.len() as int) =~= title_from_slug(slug@));
    }
    title
}

/// Guesses the title of a game from its slug.
pub fn derive_title_from_slug(slug: &str) -> (title: String)
    ensures
        title@ == title_from_slug(slug@),
{
    let chars = to_chars(slug);
    let title = derive_title(chars.as_slice());
    to_text(title.as_slice())
}

/// The lines on which the path of the executable goes on: every line up to
/// the first that holds a colon, each trimmed and added after one space.
pub open spec fn exe_path_from(text: Seq<char>, path: Seq<char>) -> Seq<char>
    decreases text.len(),
{
    if text.len() == 0 {
        path
    } else {
        let (rest, line) = till_end_of_line(text);
        if line.contains(':') {
            path
        } else if 0 < rest.len() <= text.len() {
            exe_path_from(rest.skip(1), path + seq![' '] + trimmed(line))
        } else {
            path + seq![' '] + trimmed(line)
        }
    }
}

/// The path of the executable: the line of the key `exe`, trimmed, and the
/// lines on which it goes on. `at_key` is the text from the key on.
pub open spec fn exe_path(at_key: Seq<char>) -> Seq<char> {
    let (rest, line) = till_end_of_line(at_key);
    if rest.len() == 0 {
        trimmed(line)
    } else {
        exe_path_from(rest.skip(1), trimmed(line))
    }
}

/// The name of the executable: what follows the last slash of the path, or,
/// in a path without slash, the value of the key `exe`.
pub open spec fn executable_name(full_path: Seq<char>) -> Option<Seq<char>> {
    match split_at_last(full_path, '/') {
        Some((_, name)) => Some(name),
        None => match value_yml(full_path, "exe"@) {
            Some((_, exe)) => Some(exe),
            None => None,
        },
    }
}

/// The slug that the name of a file gives: what stands before its last
/// hyphen.
pub open spec fn slug_from_file_name(file_name: Option<Seq<char>>) -> Option<Seq<char>> {
    match file_name {
        Some(file_name) => match split_at_last(file_name, '-') {
            Some((slug, _)) => Some(slug),
            None => None,
        },
        None => None,
    }
}

/// What a configuration file says of its game. The key `exe` must be there.
/// `game_slug`, `name` and `slug` are looked for in this order, each after
/// the one before that was found. Without `slug` the slug comes from the
/// name of the file, and without that either there is no match. Without a
/// title, or with an empty one, the title is guessed from the slug.
pub open spec fn game_yml(content: Seq<char>, file_name: Option<Seq<char>>) -> Option<
    (Seq<char>, GameYmlRecord),
> {
    match until_key(content, yml_key("exe"@)) {
        Some((at_exe, _)) => match executable_name(exe_path(at_exe)) {
            Some(executable_name) => {
                let (after_game_slug, game_slug) = match value_yml(at_exe, "game_slug"@) {
                    Some((rest, game_slug)) => (rest, Some(game_slug)),
                    None => (at_exe, None),
                };
                let (after_title, title) = match value_yml(after_game_slug, "name"@) {
                    Some((rest, title)) => (rest, title),
                    None => (after_game_slug, Seq::empty()),
                };
                let found_slug = match value_yml(after_title, "slug"@) {
                    Some((rest, slug)) => Some((rest, slug)),
                    None => match slug_from_file_name(file_name) {
                        Some(slug) => Some((after_title, slug)),
                        None => None,
                    },
                };
                match found_slug {
                    Some((rest, slug)) => Some(
                        (
                            rest,
                            GameYmlRecord {
                                executable_name,
                                title: if title.len() == 0 {
                                    title_from_slug(slug)
                                } else {
                                    title
                                },
                                game_slug,
                                slug,
                            },
                        ),
                    ),
                    None => None,
                }
            },
            None => None,
        },
        None => None,
    }
}

fn scan_exe_path(at_key: &[char]) -> (path: Vec<char>)
    ensures
        path@ == exe_path(at_key@),
{
    let mut path: Vec<char> = Vec::new();
    let (first_len, first_line) = scan_till(at_key, CharClass::Only('\n'));
    extend_chars(&mut path, trim(first_line));
    proof {
        assert(path@ =~= trimmed(first_line@));
    }
    if first_len == at_key.len() {
        return path;
    }
    let mut pos: usize = first_len + 1;
    proof {
        assert(at_key@.skip(first_len as int).skip(1) =~= at_key@.skip(pos as int));
    }
    loop
        invariant
            pos <= at_key@.len(),
            exe_path(at_key@) == exe_path_from(at_key@.skip(pos as int), path@),
        decreases at_key@.len() - pos,
    {
        let here = tail(at_key, pos);
        if here.len() == 0 {
            return path;
        }
        let (line_len, line) = scan_till(here, CharClass::Only('\n'));
        if contains_char(line, ':') {
            return path;
        }
        let ghost before = path@;
        path.push(' ');
        extend_chars(&mut path, trim(line));
        proof {
            assert(path@ =~= before + seq![' '] + trimmed(line@));
        }
        if line_len == here.len() {
            return path;
        }
        proof {
            assert(here@.skip(line_len as int).skip(1) =~= at_key@.skip(pos + line_len + 1));
        }
        pos = pos + line_len + 1;
    }
}

fn executable_name_of(full_path: &[char]) -> (r: Option<Vec<char>>)
    ensures
        match r {
            Some(name) => executable_name(full_path@) == Some(name@),
            None => executable_name(full_path@) is None,
        },
{
    let mut name: Vec<char> = Vec::new();
    // First try to just take anything after the last '/'
    match find_last(full_path, '/') {
        Some(at) => {
            extend_chars(&mut name, tail(full_path, at + 1));
            proof {
                assert(name@ =~= full_path@.skip(at + 1));
            }
            Some(name)
        },
        // If value does not include `/`, then the whole thing is the executable name
        None => {
            let key_exe = to_chars("exe");
            match scan_value_yml(full_path, key_exe.as_slice()) {
                Some((_, exe)) => {
                    extend_chars(&mut name, exe);
                    proof {
                        assert(name@ =~= exe@);
                    }
                    Some(name)
                },
                None => None,
            }
        },
    }
}

/// Used for parsing relevant game's data from the given game `.yml` file's contents
// A bit complicated due to edge cases where only the executable name is defined in the file
pub fn scan_game_yml(content: &[char], file_name: Option<&[char]>) -> (r: Option<
    (usize, ParsableGameYmlData),
>)
    ensures
        match r {
            Some((consumed, data)) => consumed <= content@.len() && game_yml(
                content@,
                match file_name {
                    Some(file_name) => Some(file_name@),
                    None => None,
                },
            ) == Some((content@.skip(consumed as int), data@)),
            None => game_yml(
                content@,
                match file_name {
                    Some(file_name) => Some(file_name@),
                    None => None,
                },
            ) is None,
        },
{
    // EXECUTABLE_NAME
    let key_exe = to_chars("exe:");
    proof {
        reveal_strlit("exe:");
        reveal_strlit("exe");
        assert("exe:"@ =~= yml_key("exe"@));
    }
    let at_exe = match find(content, key_exe.as_slice()) {
        Some(at_exe) => at_exe,
        None => {
            return None;
        },
    };
    let (pos, rest) = step(content, 0, at_exe);
    // Executable path might span over multiple lines
    let full_path = scan_exe_path(rest);
    let executable_name = match executable_name_of(full_path.as_slice()) {
        Some(name) => name,
        None => {
            return None;
        },
    };
    // GAME_SLUG
    let key_game_slug = to_chars("game_slug");
    // Use value parsed from file for the game_slug, if one is found
    let (pos, rest, game_slug) = match scan_value_yml(rest, key_game_slug.as_slice()) {
        Some((consumed, game_slug)) => {
            let (pos, rest) = step(content, pos, consumed);
            (pos, rest, Some(to_text(game_slug)))
        },
        None => (pos, rest, None),
    };
    // TITLE
    let key_title = to_chars("name");
    let mut title: Vec<char> = Vec::new();
    let (pos, rest) = match scan_value_yml(rest, key_title.as_slice()) {
        Some((consumed, found)) => {
            extend_chars(&mut title, found);
            proof {
                assert(title@ =~= found@);
            }
            step(content, pos, consumed)
        },
        None => (pos, rest),
    };
    // SLUG
    let key_slug = to_chars("slug");
    let mut slug: Vec<char> = Vec::new();
    let (pos, rest) = match scan_value_yml(rest, key_slug.as_slice()) {
        // Use value parsed from file for the slug, if one is found
        Some((consumed, found)) => {
            extend_chars(&mut slug, found);
            proof {
                assert(slug@ =~= found@);
            }
            step(content, pos, consumed)
        },
        // Otherwise attempt to read the slug from the file's name (usually in the form
        // `{slug}-{number}.yml`)
        None => {
            let name = match file_name {
                Some(name) => name,
                None => {
                    return None;
                },
            };
            match find_last(name, '-') {
                Some(at) => {
                    extend_chars(&mut slug, head(name, at));
                    proof {
                        assert(slug@ =~= name@.take(at as int));
                    }
                },
                None => {
                    return None;
                },
            };
            (pos, rest)
        },
    };
    // Guess the title from the slug if it wasn't found in the file
    if title.len() == 0 {
        title = derive_title(slug.as_slice());
    }
    Some(
        (
            pos,
            ParsableGameYmlData {
                executable_name: to_text(executable_name.as_slice()),
                title: to_text(title.as_slice()),
                game_slug,
                slug: to_text(slug.as_slice()),
            },
        ),
    )
}

/// What one line of the file of game paths says: a quoted run id and the
/// quoted path of the executable, which is split at its last slash.
pub open spec fn game_paths_of_line(line: Seq<char>) -> Option<GamePathsRecord> {
    match double_quoted_key_value(line) {
        Some((_, (run_id, exe_path))) => match split_at_last(exe_path, '/') {
            Some((game_dir, executable_name)) => Some(
                GamePathsRecord { game_dir, executable_name, run_id },
            ),
            None => None,
        },
        None => None,
    }
}

/// What the lines of the file of game paths say, in the order of the
/// lines; a line that says nothing is passed over.
pub open spec fn game_paths_of_lines(lines: Seq<Seq<char>>) -> Seq<GamePathsRecord>
    decreases lines.len(),
{
    if lines.len() == 0 {
        Seq::empty()
    } else {
        let before = game_paths_of_lines(lines.drop_last());
        match game_paths_of_line(lines.last()) {
            Some(record) => before.push(record),
            None => before,
        }
    }
}

/// The records of `items` with the given run id, in their order.
pub open spec fn with_run_id(items: Seq<GamePathsRecord>, run_id: Seq<char>) -> Seq<
    GamePathsRecord,
> {
    items.filter(|item: GamePathsRecord| item.run_id == run_id)
}

/// `sorted` holds the records of `items` in the order of their run ids, and
/// records with the same run id in the order in which `items` has them.
pub open spec fn is_stable_sort(sorted: Seq<GamePathsRecord>, items: Seq<GamePathsRecord>) -> bool {
    &&& forall|i: int, j: int|
        0 <= i < j < sorted.len() ==> text_order(
            (#[trigger] sorted[i]).run_id,
            (#[trigger] sorted[j]).run_id,
        ) != TextOrder::After
    &&& forall|run_id: Seq<char>| #[trigger]
        with_run_id(sorted, run_id) == with_run_id(items, run_id)
}

/// `items` without each record that follows a record with the same run id.
pub open spec fn without_repeats(items: Seq<GamePathsRecord>) -> Seq<GamePathsRecord>
    decreases items.len(),
{
    if items.len() == 0 {
        Seq::empty()
    } else {
        let before = without_repeats(items.drop_last());
        if items.len() >= 2 && items[items.len() - 2].run_id == items.last().run_id {
            before
        } else {
            before.push(items.last())
        }
    }
}

/// The run ids of `items` do not decrease.
pub open spec fn is_sorted_by_run_id(items: Seq<GamePathsRecord>) -> bool {
    forall|i: int, j: int|
        0 <= i < j < items.len() ==> text_order(
            (#[trigger] items[i]).run_id,
            (#[trigger] items[j]).run_id,
        ) != TextOrder::After
}

/// No record before the one at `at` has its run id.
pub open spec fn is_first_with_run_id(items: Seq<GamePathsRecord>, at: int) -> bool {
    &&& 0 <= at < items.len()
    &&& forall|m: int| 0 <= m < at ==> (#[trigger] items[m]).run_id != items[at].run_id
}

/// What the file of game paths gives, `read` being the records of its
/// lines: of each run id the first record of the file, and these in the
/// order of their run ids.
pub open spec fn is_game_paths_of(kept: Seq<GamePathsRecord>, read: Seq<GamePathsRecord>) -> bool {
    &&& forall|i: int, j: int|
        0 <= i < j < kept.len() ==> text_order(
            (#[trigger] kept[i]).run_id,
            (#[trigger] kept[j]).run_id,
        ) == TextOrder::Before
    &&& forall|i: int|
        0 <= i < kept.len() ==> with_run_id(read, (#[trigger] kept[i]).run_id).len() > 0
            && kept[i] == with_run_id(read, kept[i].run_id)[0]
    &&& forall|k: int| 0 <= k < read.len() ==> has_run_id(kept, (#[trigger] read[k]).run_id)
}

/// Some record of `items` has the run id `run_id`.
pub open spec fn has_run_id(items: Seq<GamePathsRecord>, run_id: Seq<char>) -> bool {
    exists|i: int| 0 <= i < items.len() && (#[trigger] items[i]).run_id == run_id
}

/// The indices of the records that stay when the repeats are dropped.
pub open spec fn kept_indices(items: Seq<GamePathsRecord>) -> Seq<int>
    decreases items.len(),
{
    if items.len() == 0 {
        Seq::empty()
    } else {
        let before = kept_indices(items.drop_last());
        if items.len() >= 2 && items[items.len() - 2].run_id == items.last().run_id {
            before
        } else {
            before.push(items.len() - 1)
        }
    }
}

/// The record at `at` has another run id than the record before it.
pub open spec fn starts_run(items: Seq<GamePathsRecord>, at: int) -> bool {
    &&& 0 <= at < items.len()
    &&& at > 0 ==> items[at - 1].run_id != items[at].run_id
}

/// The records that stay are those at the kept indices, which rise, and
/// each of which starts a run of equal run ids. The last that stays has the
/// run id of the last record.
pub proof fn lemma_kept_indices(items: Seq<GamePathsRecord>)
    ensures
        without_repeats(items).len() == kept_indices(items).len(),
        forall|i: int|
            0 <= i < kept_indices(items).len() ==> starts_run(items, #[trigger] kept_indices(items)[i])
                && without_repeats(items)[i] == items[kept_indices(items)[i]],
        forall|i: int, j: int|
            0 <= i < j < kept_indices(items).len() ==> #[trigger] kept_indices(items)[i]
                < #[trigger] kept_indices(items)[j],
        items.len() > 0 ==> kept_indices(items).len() > 0 && items[kept_indices(
            items,
        ).last()].run_id == items.last().run_id,
    decreases items.len(),
{
    if items.len() > 0 {
        let init = items.drop_last();
        lemma_kept_indices(init);
        assert forall|i: int| 0 <= i < kept_indices(init).len() implies starts_run(
            items,
            #[trigger] kept_indices(init)[i],
        ) && items[kept_indices(init)[i]] == init[kept_indices(init)[i]] by {
            let k = kept_indices(init)[i];
            assert(starts_run(init, k));
            assert(items[k] == init[k]);
            if k > 0 {
                assert(items[k - 1] == init[k - 1]);
            }
        }
        if init.len() > 0 {
            assert(items[items.len() - 2] == init.last());
        }
    }
}

/// In sorted records, all records between two with the same run id have
/// that run id.
pub proof fn lemma_sorted_run(items: Seq<GamePathsRecord>, from: int, at: int, to: int)
    requires
        is_sorted_by_run_id(items),
        0 <= from <= at <= to < items.len(),
        items[from].run_id == items[to].run_id,
    ensures
        items[at].run_id == items[from].run_id,
{
    if from < at && at < to {
        assert(text_order(items[from].run_id, items[at].run_id) != TextOrder::After);
        assert(text_order(items[at].run_id, items[to].run_id) != TextOrder::After);
        lemma_text_order_antisymmetric(items[from].run_id, items[at].run_id);
    }
}

/// In sorted records, a record that starts a run is the first with its
/// run id.
pub proof fn lemma_start_is_first(items: Seq<GamePathsRecord>, at: int)
    requires
        is_sorted_by_run_id(items),
        starts_run(items, at),
    ensures
        is_first_with_run_id(items, at),
{
    assert forall|m: int| 0 <= m < at implies (#[trigger] items[m]).run_id != items[at].run_id by {
        if items[m].run_id == items[at].run_id {
            lemma_sorted_run(items, m, at - 1, at);
        }
    }
}

/// Of sorted records, those that stay when the repeats are dropped are the
/// first of each run id, in strictly rising order.
pub proof fn lemma_without_repeats(items: Seq<GamePathsRecord>)
    requires
        is_sorted_by_run_id(items),
    ensures
        without_repeats(items).len() == kept_indices(items).len(),
        forall|i: int|
            0 <= i < without_repeats(items).len() ==> is_first_with_run_id(
                items,
                #[trigger] kept_indices(items)[i],
            ) && without_repeats(items)[i] == items[kept_indices(items)[i]],
        forall|i: int, j: int|
            0 <= i < j < without_repeats(items).len() ==> text_order(
                (#[trigger] without_repeats(items)[i]).run_id,
                (#[trigger] without_repeats(items)[j]).run_id,
            ) == TextOrder::Before,
{
    lemma_kept_indices(items);
    let indices = kept_indices(items);
    let kept = without_repeats(items);
    assert forall|i: int| 0 <= i < kept.len() implies is_first_with_run_id(
        items,
        #[trigger] indices[i],
    ) && kept[i] == items[indices[i]] by {
        lemma_start_is_first(items, indices[i]);
    }
    assert forall|i: int, j: int| 0 <= i < j < kept.len() implies text_order(
        (#[trigger] kept[i]).run_id,
        (#[trigger] kept[j]).run_id,
    ) == TextOrder::Before by {
        assert(indices[i] < indices[j]);
        lemma_start_is_first(items, indices[j]);
        assert(items[indices[i]].run_id != items[indices[j]].run_id);
        assert(text_order(items[indices[i]].run_id, items[indices[j]].run_id) != TextOrder::After);
        lemma_text_order_same(items[indices[i]].run_id, items[indices[j]].run_id);
    }
}

/// Dropping the repeats loses no run id.
pub proof fn lemma_without_repeats_covers(items: Seq<GamePathsRecord>, at: int)
    requires
        0 <= at < items.len(),
    ensures
        has_run_id(without_repeats(items), items[at].run_id),
    decreases items.len(),
{
    let init = items.drop_last();
    let kept = without_repeats(items);
    lemma_kept_indices(items);
    if at < items.len() - 1 {
        lemma_without_repeats_covers(init, at);
        let i = choose|i: int|
            0 <= i < without_repeats(init).len() && (#[trigger] without_repeats(init)[i]).run_id
                == init[at].run_id;
        assert(kept[i] == without_repeats(init)[i]);
        assert(items[at] == init[at]);
    } else {
        assert(kept[kept.len() - 1].run_id == items[at].run_id);
    }
}

/// The first record with a run id is the first of the records with that
/// run id.
pub proof fn lemma_first_with_run_id(items: Seq<GamePathsRecord>, at: int)
    requires
        is_first_with_run_id(items, at),
    ensures
        with_run_id(items, items[at].run_id).len() > 0,
        with_run_id(items, items[at].run_id)[0] == items[at],
    decreases at,
{
    let run_id = items[at].run_id;
    let keep = |item: GamePathsRecord| item.run_id == run_id;
    assert(items =~= seq![items[0]] + items.skip(1));
    items.skip(1).lemma_filter_prepend(items[0], keep);
    if at > 0 {
        assert(items.skip(1)[at - 1] == items[at]);
        assert(is_first_with_run_id(items.skip(1), at - 1)) by {
            assert forall|m: int| 0 <= m < at - 1 implies (#[trigger] items.skip(1)[m]).run_id
                != items.skip(1)[at - 1].run_id by {
                assert(items.skip(1)[m] == items[m + 1]);
            }
        }
        lemma_first_with_run_id(items.skip(1), at - 1);
        assert(!keep(items[0]));
        assert(Seq::<GamePathsRecord>::empty() + items.skip(1).filter(keep) =~= items.skip(
            1,
        ).filter(keep));
    }
}

/// Sorting the records in a stable way and dropping the repeats gives the
/// game paths of the file.
pub proof fn lemma_sorted_without_repeats(sorted: Seq<GamePathsRecord>, read: Seq<GamePathsRecord>)
    requires
        is_stable_sort(sorted, read),
    ensures
        is_game_paths_of(without_repeats(sorted), read),
{
    let kept = without_repeats(sorted);
    lemma_without_repeats(sorted);
    assert forall|i: int| 0 <= i < kept.len() implies with_run_id(
        read,
        (#[trigger] kept[i]).run_id,
    ).len() > 0 && kept[i] == with_run_id(read, kept[i].run_id)[0] by {
        let k = kept_indices(sorted)[i];
        assert(is_first_with_run_id(sorted, k) && sorted[k] == kept[i]);
        lemma_first_with_run_id(sorted, k);
        assert(with_run_id(sorted, kept[i].run_id) == with_run_id(read, kept[i].run_id));
    }
    assert forall|k: int| 0 <= k < read.len() implies has_run_id(
        kept,
        (#[trigger] read[k]).run_id,
    ) by {
        let run_id = read[k].run_id;
        let keep = |item: GamePathsRecord| item.run_id == run_id;
        read.lemma_filter_contains(keep, k);
        assert(with_run_id(sorted, run_id) == with_run_id(read, run_id));
        sorted.lemma_filter_contains_rev(keep, read[k]);
        let m = choose|m: int| 0 <= m < sorted.len() && sorted[m] == read[k];
        lemma_without_repeats_covers(sorted, m);
    }
}

/// Whether two records have the same run id.
pub fn same_run_id(a: &ParsableGamePathsData, b: &ParsableGamePathsData) -> (r: bool)
    ensures
        r == (a@.run_id == b@.run_id),
{
    a.run_id == b.run_id
}

/// How the run id of `a` stands to that of `b`.
pub fn compare_run_ids(a: &ParsableGamePathsData, b: &ParsableGamePathsData) -> (r: TextOrder)
    ensures
        r == text_order(a@.run_id, b@.run_id),
{
    let left = to_chars(a.run_id.as_str());
    let right = to_chars(b.run_id.as_str());
    compare_texts(left.as_slice(), right.as_slice())
}

/// Trusted: calls `Itertools::dedup_by` of itertools, which walks the items
/// once and drops each item for which the closure, given the item kept last
/// and this one, returns `true`. With equality of run ids as the test that
/// leaves the first record of each run of equal run ids.
#[verifier::external_body]
fn dedup_by_run_id(items: Vec<ParsableGamePathsData>) -> (r: Vec<ParsableGamePathsData>)
    ensures
        views(r@) == without_repeats(views(items@)),
{
    items.into_iter().dedup_by(|a, b| same_run_id(a, b)).collect()
}

/// Reads the file of game paths, given as its lines: the records of the
/// lines, sorted by run id, and of each run id the first record only.
pub fn parse_game_paths_lines(lines: &Vec<String>) -> (r: Vec<ParsableGamePathsData>)
    ensures
        is_game_paths_of(views(r@), game_paths_of_lines(views(lines@))),
{
    let mut parsed: Vec<ParsableGamePathsData> = Vec::new();
    let mut i: usize = 0;
    proof {
        assert(views(lines@).take(0) =~= Seq::empty());
        assert(views(parsed@) =~= Seq::empty());
    }
    while i < lines.len()
        invariant
            i <= lines.len(),
            views(parsed@) == game_paths_of_lines(views(lines@).take(i as int)),
        decreases lines.len() - i,
    {
        proof {
            let upto = views(lines@).take(i + 1);
            assert(upto.drop_last() =~= views(lines@).take(i as int));
            assert(upto.last() == lines[i as int]@);
        }
        let line = to_chars(lines[i].as_str());
        match scan_double_quoted_key_value(line.as_slice()) {
            Some((_, (run_id, exe_path))) => match find_last(exe_path, '/') {
                Some(at) => {
                    let record = ParsableGamePathsData {
                        game_dir: to_text(head(exe_path, at)),
                        executable_name: to_text(tail(exe_path, at + 1)),
                        run_id: to_text(run_id),
                    };
                    proof {
                        lemma_views_push(parsed@, record);
                    }
                    parsed.push(record);
                },
                None => {},
            },
            None => {},
        }
        i += 1;
    }
    proof {
        assert(views(lines@).take(lines@.len() as int) =~= views(lines@));
    }
    // Remove duplicate values as this file regularly has duplicates for some reason
    let sorted = sort_by_run_id(parsed);
    proof {
        lemma_sorted_without_repeats(views(sorted@), game_paths_of_lines(views(lines@)));
    }
    dedup_by_run_id(sorted)
}

/// What the configuration files of the games say, in the order of the
/// files, each given as its name and its text; a file that says nothing is
/// passed over.
pub open spec fn games_of_files(files: Seq<(Seq<char>, Seq<char>)>) -> Seq<GameYmlRecord>
    decreases files.len(),
{
    if files.len() == 0 {
        Seq::empty()
    } else {
        let before = games_of_files(files.drop_last());
        match game_yml(files.last().1, Some(files.last().0)) {
            Some((_, record)) => before.push(record),
            None => before,
        }
    }
}

/// The paths of a game and a configuration file belong together where they
/// name the same executable.
pub struct JoinByExecutable;

impl JoinRule for JoinByExecutable {
    type Primary = ParsableGamePathsData;

    type Secondary = ParsableGameYmlData;

    type Joined = ParsableDataCombined;

    open spec fn matches(&self, primary: GamePathsRecord, secondary: GameYmlRecord) -> bool {
        secondary.executable_name == primary.executable_name
    }

    open spec fn merged(&self, primary: GamePathsRecord, secondary: GameYmlRecord) -> CombinedRecord {
        combined(primary, secondary)
    }

    fn is_match(&self, primary: &ParsableGamePathsData, secondary: &ParsableGameYmlData) -> (r:
        bool) {
        secondary.executable_name == primary.executable_name
    }

    fn merge(&self, primary: &ParsableGamePathsData, secondary: &ParsableGameYmlData) -> (r:
        ParsableDataCombined) {
        ParsableDataCombined::combine(primary, secondary)
    }
}

// LUTRIS LAUNCHER ----------------------------------------------------------------------
#[derive(Debug)]
pub struct Lutris {
    pub path_games_dir: String,
    pub path_box_art_dir: String,
    pub path_game_paths_json: String,
    pub is_using_flatpak: bool,
}

/// Which of the directories of Lutris exist.
pub struct DirsFound {
    /// `lutris` below the configuration directory.
    pub config: bool,
    /// `lutris` below the cache directory.
    pub cache: bool,
    /// `lutris` below the data directory.
    pub data: bool,
    /// `games` below the configuration directory that is used.
    pub games: bool,
    /// The directory of cover art that is tried first.
    pub box_art: bool,
}

/// Which images of one game exist, and whether its directory does.
pub struct Found {
    /// The images named by the game slug: `png`, `jpg`, `jpeg`.
    pub game_slug_images: (bool, bool, bool),
    /// The images named by the slug: `png`, `jpg`, `jpeg`.
    pub slug_images: (bool, bool, bool),
    pub game_dir: bool,
}

/// The roots that a user's directories and what exists there give.
pub struct Roots {
    pub config: Seq<char>,
    pub cache: Seq<char>,
    pub box_art: Seq<char>,
    pub data: Seq<char>,
    pub is_using_flatpak: bool,
}

impl Lutris {
    /// The flatpak is used only where the configuration directory is
    /// missing together with the cache or the data directory.
    pub open spec fn roots(
        path_home: Seq<char>,
        path_config: Seq<char>,
        path_cache: Seq<char>,
        path_data: Seq<char>,
        found: DirsFound,
    ) -> Roots {
        let flatpak = joined(path_home, ".var/app/net.lutris.Lutris"@);
        if !found.config && (!found.cache || !found.data) {
            Roots {
                config: joined(flatpak, "data/lutris"@),
                cache: joined(flatpak, "cache/lutris"@),
                box_art: joined(flatpak, "data/lutris/coverart"@),
                data: joined(path_data, "lutris"@),
                is_using_flatpak: true,
            }
        } else {
            Roots {
                config: joined(path_config, "lutris"@),
                cache: joined(path_cache, "lutris"@),
                box_art: joined(joined(path_cache, "lutris"@), "coverart"@),
                data: joined(path_data, "lutris"@),
                is_using_flatpak: false,
            }
        }
    }

    /// The source of the games of this launcher.
    pub fn get_launcher_type(&self) -> (r: SupportedLaunchers)
        ensures
            r == SupportedLaunchers::Lutris,
    {
        SupportedLaunchers::Lutris
    }

    /// Asks the file system whether the launcher is there. The answer
    /// depends on what is on disk, so nothing is stated of it.
    pub fn is_detected(&self) -> bool {
        probe(self.path_game_paths_json.as_str(), PathKind::Any) && probe(
            self.path_games_dir.as_str(),
            PathKind::Dir,
        ) && probe(self.path_box_art_dir.as_str(), PathKind::Dir)
    }

    /// Whether this is the launcher for the given directories. The games
    /// and the cover art fall back to the data directory where their first
    /// place is missing.
    pub open spec fn is_located(
        self,
        path_home: Seq<char>,
        path_config: Seq<char>,
        path_cache: Seq<char>,
        path_data: Seq<char>,
        found: DirsFound,
    ) -> bool {
        let roots = Self::roots(path_home, path_config, path_cache, path_data, found);
        &&& self.is_using_flatpak == roots.is_using_flatpak
        &&& self.path_game_paths_json@ == joined(roots.cache, "game-paths.json"@)
        &&& self.path_games_dir@ == if found.games {
            joined(roots.config, "games"@)
        } else {
            joined(roots.data, "games"@)
        }
        &&& self.path_box_art_dir@ == if found.box_art {
            roots.box_art
        } else {
            joined(roots.data, "coverart"@)
        }
    }

    /// The launcher, once it is known which directories exist.
    pub fn located(
        path_home: &str,
        path_config: &str,
        path_cache: &str,
        path_data: &str,
        found: DirsFound,
    ) -> (r: Self)
        ensures
            r.is_located(path_home@, path_config@, path_cache@, path_data@, found),
    {
        let path_data_lutris = join_path(path_data, "lutris");
        let is_using_flatpak = !found.config && (!found.cache || !found.data);
        let (path_config_lutris, path_cache_lutris, path_box_art_dir) = if is_using_flatpak {
            let path_flatpak = join_path(path_home, ".var/app/net.lutris.Lutris");
            (
                join_path(path_flatpak.as_str(), "data/lutris"),
                join_path(path_flatpak.as_str(), "cache/lutris"),
                join_path(path_flatpak.as_str(), "data/lutris/coverart"),
            )
        } else {
            let path_cache_lutris = join_path(path_cache, "lutris");
            let path_box_art_dir = join_path(path_cache_lutris.as_str(), "coverart");
            (join_path(path_config, "lutris"), path_cache_lutris, path_box_art_dir)
        };
        Lutris {
            path_games_dir: if found.games {
                join_path(path_config_lutris.as_str(), "games")
            } else {
                join_path(path_data_lutris.as_str(), "games")
            },
            path_box_art_dir: if found.box_art {
                path_box_art_dir
            } else {
                join_path(path_data_lutris.as_str(), "coverart")
            },
            path_game_paths_json: join_path(path_cache_lutris.as_str(), "game-paths.json"),
            is_using_flatpak,
        }
    }

    /// Looks for the directories of Lutris and falls back to the flatpak, or
    /// to the data directory, where they are missing.
    pub fn new(path_home: &str, path_config: &str, path_cache: &str, path_data: &str) -> (r: Self)
        ensures
            exists|found: DirsFound| #[trigger]
                r.is_located(path_home@, path_config@, path_cache@, path_data@, found),
    {
        let path_config_lutris = join_path(path_config, "lutris");
        let path_cache_lutris = join_path(path_cache, "lutris");
        let path_data_lutris = join_path(path_data, "lutris");
        // Check for flatpak only if multiple dirs don't exist, and use fallbacks if only the
        // config dir is missing.
        let config = probe(path_config_lutris.as_str(), PathKind::Dir);
        let cache = probe(path_cache_lutris.as_str(), PathKind::Dir);
        let data = probe(path_data_lutris.as_str(), PathKind::Dir);
        let first = Self::located(
            path_home,
            path_config,
            path_cache,
            path_data,
            DirsFound { config, cache, data, games: true, box_art: true },
        );
        // Fallbacks for games and cover art dirs as Lutris on some systems without `$XDG`
        // env variables defined seems to put things in different places.
        let games = probe(first.path_games_dir.as_str(), PathKind::Dir);
        let box_art = probe(first.path_box_art_dir.as_str(), PathKind::Dir);
        Self::located(
            path_home,
            path_config,
            path_cache,
            path_data,
            DirsFound { config, cache, data, games, box_art },
        )
    }

    /// Parse data from the Lutris `game-paths.json` file
    pub fn parse_game_paths_json(lines: &Vec<String>) -> (r: Vec<ParsableGamePathsData>)
        ensures
            is_game_paths_of(views(r@), game_paths_of_lines(views(lines@))),
    {
        parse_game_paths_lines(lines)
    }

    /// Parse relevant game data from a given Lutris game's `.yml` file
    pub fn get_parsable_game_yml_data(file_content: &str, file_name: &str) -> (r: Option<
        ParsableGameYmlData,
    >)
        ensures
            match r {
                Some(data) => game_yml(file_content@, Some(file_name@)) matches Some((_, record))
                    && record == data@,
                None => game_yml(file_content@, Some(file_name@)) is None,
            },
    {
        let content = to_chars(file_content);
        let name = to_chars(file_name);
        match scan_game_yml(content.as_slice(), Some(name.as_slice())) {
            Some((_, parsed_data)) => Some(parsed_data),
            None => None,
        }
    }

    /// Parse data from the Lutris games directory, which contains 1 `.yml` file for each game
    pub fn parse_games_dir(files: &Vec<(String, String)>) -> (r: Vec<ParsableGameYmlData>)
        ensures
            views(r@) == games_of_files(views(files@)),
    {
        let mut parsed: Vec<ParsableGameYmlData> = Vec::new();
        let mut i: usize = 0;
        proof {
            assert(views(files@).take(0) =~= Seq::empty());
            assert(views(parsed@) =~= Seq::empty());
        }
        while i < files.len()
            invariant
                i <= files.len(),
                views(parsed@) == games_of_files(views(files@).take(i as int)),
            decreases files.len() - i,
        {
            proof {
                let upto = views(files@).take(i + 1);
                assert(upto.drop_last() =~= views(files@).take(i as int));
                assert(upto.last() == files[i as int]@);
            }
            match Self::get_parsable_game_yml_data(files[i].1.as_str(), files[i].0.as_str()) {
                Some(record) => {
                    proof {
                        lemma_views_push(parsed@, record);
                    }
                    parsed.push(record);
                },
                None => {},
            }
            i += 1;
        }
        proof {
            assert(views(files@).take(files@.len() as int) =~= views(files@));
        }
        parsed
    }

    /// Get all relevant game data by combining data from the `game-paths.json` file and
    /// each game's `.yml` file.
    /// Matching of the data from these sources is done using the executable path of the
    /// game, which is the only thing defined in both sources
    pub fn parse_game_data(lines: &Vec<String>, files: &Vec<(String, String)>) -> (r: Vec<
        ParsableDataCombined,
    >)
        ensures
            exists|game_paths: Seq<GamePathsRecord>| #[trigger]
                is_game_paths_of(game_paths, game_paths_of_lines(views(lines@))) && views(r@)
                    == inner_join(&JoinByExecutable, game_paths, games_of_files(views(files@))),
    {
        let game_paths_data = Self::parse_game_paths_json(lines);
        let game_yml_data = Self::parse_games_dir(files);
        reconcile(&JoinByExecutable, &game_paths_data, &game_yml_data)
    }

    /// The command that runs the game with the given run id.
    pub open spec fn launch_command_of(is_using_flatpak: bool, run_id: Seq<char>) -> LaunchCommandView {
        let args = seq!["lutris:rungameid/"@ + run_id];
        let envs = seq![("LUTRIS_SKIP_INIT"@, "1"@)];
        if is_using_flatpak {
            LaunchCommandView {
                program: "flatpak"@,
                args: flatpak_args_of("net.lutris.Lutris"@, Seq::empty(), args),
                envs,
            }
        } else {
            LaunchCommandView { program: "lutris"@, args, envs }
        }
    }

    /// The box art of a game: the first image that exists under the name of
    /// its game slug, else the first under the name of its slug.
    pub open spec fn box_art_of(path_box_art_dir: Seq<char>, data: CombinedRecord, found: Found) -> Option<
        Seq<char>,
    > {
        let by_game_slug = match data.game_slug {
            Some(game_slug) => picked_image_path(
                path_box_art_dir,
                game_slug,
                found.game_slug_images.0,
                found.game_slug_images.1,
                found.game_slug_images.2,
            ),
            None => None,
        };
        match by_game_slug {
            Some(path) => Some(path),
            None => picked_image_path(
                path_box_art_dir,
                data.slug,
                found.slug_images.0,
                found.slug_images.1,
                found.slug_images.2,
            ),
        }
    }

    /// The game made of `data`, given what was found on disk.
    pub open spec fn game_of(self, data: CombinedRecord, found: Found) -> GameView {
        GameView {
            title: cleaned_title(data.title),
            path_icon: None,
            path_box_art: Self::box_art_of(self.path_box_art_dir@, data, found),
            path_game_dir: if found.game_dir {
                Some(data.game_dir)
            } else {
                None
            },
            launch_command: Self::launch_command_of(self.is_using_flatpak, data.run_id),
            source: SupportedLaunchers::Lutris,
        }
    }

    /// `game` is the game made of `data`, whatever was found on disk.
    pub open spec fn is_game_of(self, game: GameView, data: CombinedRecord) -> bool {
        exists|found: Found| game == self.game_of(data, found)
    }

    /// Builds the game of `data` from what was found on disk.
    pub fn game_from(&self, data: &ParsableDataCombined, found: Found) -> (r: Game)
        ensures
            r@ == self.game_of(data@, found),
    {
        let launch_command = {
            let env_vars = [("LUTRIS_SKIP_INIT", "1")];
            let mut game_run_arg = "lutris:rungameid/".to_owned();
            game_run_arg.append(data.run_id.as_str());
            let args = [game_run_arg.as_str()];
            proof {
                assert(views(args@) =~= seq!["lutris:rungameid/"@ + data.run_id@]);
                assert(views(env_vars@) =~= seq![("LUTRIS_SKIP_INIT"@, "1"@)]);
                assert(views(Seq::<&str>::empty()) =~= Seq::<Seq<char>>::empty());
            }
            if self.is_using_flatpak {
                let flatpak_args: [&str; 0] = [];
                proof {
                    assert(views(flatpak_args@) =~= Seq::<Seq<char>>::empty());
                }
                get_launch_command_flatpak(
                    "net.lutris.Lutris",
                    flatpak_args.as_slice(),
                    args.as_slice(),
                    env_vars.as_slice(),
                )
            } else {
                get_launch_command("lutris", args.as_slice(), env_vars.as_slice())
            }
        };
        let path_box_art = {
            // First, check if a file name using the game_slug exists
            let path = match &data.game_slug {
                Some(game_slug) => pick_image_path(
                    self.path_box_art_dir.as_str(),
                    game_slug.as_str(),
                    found.game_slug_images.0,
                    found.game_slug_images.1,
                    found.game_slug_images.2,
                ),
                None => None,
            };
            // Otherwise, fallback to using the slug
            match path {
                Some(path) => Some(path),
                None => pick_image_path(
                    self.path_box_art_dir.as_str(),
                    data.slug.as_str(),
                    found.slug_images.0,
                    found.slug_images.1,
                    found.slug_images.2,
                ),
            }
        };
        Game {
            title: clean_game_title(data.title.as_str()),
            path_icon: None,
            launch_command,
            path_box_art,
            path_game_dir: keep_if(data.game_dir.clone(), found.game_dir),
            source: LAUNCHER,
        }
    }

    /// Asks the file system which images of the given name exist in the
    /// directory of cover art.
    fn look_for_images(&self, file_name: &str) -> (bool, bool, bool) {
        let dir = self.path_box_art_dir.as_str();
        (
            probe(image_path_of(dir, file_name, "png").as_str(), PathKind::File),
            probe(image_path_of(dir, file_name, "jpg").as_str(), PathKind::File),
            probe(image_path_of(dir, file_name, "jpeg").as_str(), PathKind::File),
        )
    }

    /// Asks the file system for the images and the directory of `data`.
    pub fn look_for(&self, data: &ParsableDataCombined) -> (r: Found)
        ensures
            data@.game_slug is None ==> r.game_slug_images == (false, false, false),
    {
        Found {
            game_slug_images: match &data.game_slug {
                Some(game_slug) => self.look_for_images(game_slug.as_str()),
                // Without a game slug there is no image under that name, whatever is on disk
                None => (false, false, false),
            },
            slug_images: self.look_for_images(data.slug.as_str()),
            game_dir: probe(data.game_dir.as_str(), PathKind::Dir),
        }
    }

    /// The games of Lutris: one for each record of the join, in its order,
    /// each built from what the file system holds for it.
    pub fn get_detected_games(&self, parsed_data: &Vec<ParsableDataCombined>) -> (r: Vec<Game>)
        ensures
            r.len() == parsed_data.len(),
            forall|i: int|
                0 <= i < r.len() ==> self.is_game_of(#[trigger] r[i]@, parsed_data[i]@),
    {
        let mut games: Vec<Game> = Vec::new();
        let mut i: usize = 0;
        while i < parsed_data.len()
            invariant
                i <= parsed_data.len(),
                games.len() == i,
                forall|k: int|
                    0 <= k < i ==> self.is_game_of(#[trigger] games[k]@, parsed_data[k]@),
            decreases parsed_data.len() - i,
        {
            let found = self.look_for(&parsed_data[i]);
            let game = self.game_from(&parsed_data[i], found);
            proof {
                assert(self.is_game_of(game@, parsed_data[i as int]@));
            }
            games.push(game);
            i += 1;
        }
        games
    }
}

} // verus!
