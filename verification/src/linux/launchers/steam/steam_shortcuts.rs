//! Steam shortcuts: the games that a user added to Steam by hand. Their
//! names and the ids of their images come from `shortcuts.vdf`, their app ids
//! from the names that `screenshots.vdf` lists.

use vstd::prelude::*;
use vstd::string::*;
use steam_shortcuts_util::parse_shortcuts;
use crate::data::{Game, GameView, SupportedLaunchers};
use crate::error::GamesParsingError;
use crate::linux::launchers::steam::{
    get_steam_dir, get_steam_flatpak_dir, get_steam_launch_command, steam_launch_command,
};
use crate::parsers::{
    between_double_quotes, json_key, json_key_chars, lemma_between_double_quotes_shrinks,
    lemma_take_till1_shrinks, not_double_quote, scan_between_double_quotes, scan_not_double_quote,
    scan_till, step, take_till, until_key,
};
use crate::lines::is_lead;
use crate::scanner::{scan_all, RecordScanner};
use crate::text::{
    find, is_proper_suffix, is_run_end, lemma_run_end_is, lemma_suffix_of_suffix, lemma_views_push,
    text_of, to_chars, to_text, trim_end, trimmed_end, views, CharClass,
};
use crate::utils::paths::{
    image_path_of, join_path, joined, lemma_picked_is, pick_image_path, picked, picked_image_path,
    probe, PathKind,
};
use crate::utils::strings::{clean_game_title, cleaned_title};

verus! {

/// Data parseable from a Steam user's `shortcuts.vdf`
#[derive(Debug, Clone, Default)]
pub struct ParsableShortcutData {
    pub box_art_id: String,
    pub title: String,
}

/// Data parseable from a Steam user's `screenshots.vdf`
#[derive(Debug, Clone, Default)]
pub struct ParsableScreenshotData {
    pub title: String,
    pub app_id: String,
}

/// Combined parsed data for a Steam shortcut / non-Steam game
#[derive(Debug, Clone)]
pub struct ParsableDataCombined {
    pub title: String,
    pub app_id: String,
    pub path_box_art: Option<String>,
}

/// Paths to the files required for parsing all Steam shortcut data
#[derive(Debug)]
pub struct UserDataFiles {
    pub path_shortcuts: String,
    pub path_screenshots: String,
    pub path_box_art_dir: String,
}

/// A shortcut, as text.
pub struct ShortcutRecord {
    pub box_art_id: Seq<char>,
    pub title: Seq<char>,
}

/// An entry of the screenshots file, as text.
pub struct ScreenshotRecord {
    pub title: Seq<char>,
    pub app_id: Seq<char>,
}

/// A joined record, as text.
pub struct CombinedRecord {
    pub title: Seq<char>,
    pub app_id: Seq<char>,
    pub path_box_art: Option<Seq<char>>,
}

impl View for ParsableShortcutData {
    type V = ShortcutRecord;

    open spec fn view(&self) -> ShortcutRecord {
        ShortcutRecord { box_art_id: self.box_art_id@, title: self.title@ }
    }
}

impl View for ParsableScreenshotData {
    type V = ScreenshotRecord;

    open spec fn view(&self) -> ScreenshotRecord {
        ScreenshotRecord { title: self.title@, app_id: self.app_id@ }
    }
}

impl View for ParsableDataCombined {
    type V = CombinedRecord;

    open spec fn view(&self) -> CombinedRecord {
        CombinedRecord {
            title: self.title@,
            app_id: self.app_id@,
            path_box_art: text_of(self.path_box_art),
        }
    }
}

/// Which images of a shortcut exist: `png`, `jpg`, `jpeg`, first under the
/// name that ends in `p`, then under the bare id.
pub struct Found {
    pub with_p: (bool, bool, bool),
    pub bare: (bool, bool, bool),
}

/// The box art of a shortcut. Regular Steam shortcut images have an extra
/// "p" at the end of the image file names, whereas the flathub Steam ones
/// don't: the name with the `p` is tried first.
pub open spec fn box_art_of(path_box_art_dir: Seq<char>, box_art_id: Seq<char>, found: Found) -> Option<
    Seq<char>,
> {
    match picked_image_path(
        path_box_art_dir,
        box_art_id + "p"@,
        found.with_p.0,
        found.with_p.1,
        found.with_p.2,
    ) {
        Some(path) => Some(path),
        None => picked_image_path(
            path_box_art_dir,
            box_art_id,
            found.bare.0,
            found.bare.1,
            found.bare.2,
        ),
    }
}

/// A shortcut and the entry of the screenshots file that has its name, as
/// one record.
pub open spec fn combined(
    path_box_art_dir: Seq<char>,
    shortcut_data: ShortcutRecord,
    screenshot_data: ScreenshotRecord,
    found: Found,
) -> CombinedRecord {
    CombinedRecord {
        title: shortcut_data.title,
        app_id: screenshot_data.app_id,
        path_box_art: box_art_of(path_box_art_dir, shortcut_data.box_art_id, found),
    }
}

/// `record` is the record of the pair, whatever images were found.
pub open spec fn is_combined(
    record: CombinedRecord,
    path_box_art_dir: Seq<char>,
    shortcut_data: ShortcutRecord,
    screenshot_data: ScreenshotRecord,
) -> bool {
    exists|found: Found|
        record == combined(path_box_art_dir, shortcut_data, screenshot_data, found)
}

fn look_for_images(path_box_art_dir: &str, file_name: &str) -> (bool, bool, bool) {
    (
        probe(image_path_of(path_box_art_dir, file_name, "png").as_str(), PathKind::File),
        probe(image_path_of(path_box_art_dir, file_name, "jpg").as_str(), PathKind::File),
        probe(image_path_of(path_box_art_dir, file_name, "jpeg").as_str(), PathKind::File),
    )
}

impl ParsableDataCombined {
    /// Makes the record of a pair from what was found on disk.
    pub fn combine_found(
        path_box_art_dir: &str,
        shortcut_data: &ParsableShortcutData,
        screenshot_data: &ParsableScreenshotData,
        found: Found,
    ) -> (r: Self)
        ensures
            r@ == combined(path_box_art_dir@, shortcut_data@, screenshot_data@, found),
    {
        let mut with_p = shortcut_data.box_art_id.clone();
        with_p.append("p");
        let path_box_art = match pick_image_path(
            path_box_art_dir,
            with_p.as_str(),
            found.with_p.0,
            found.with_p.1,
            found.with_p.2,
        ) {
            Some(path) => Some(path),
            None => pick_image_path(
                path_box_art_dir,
                shortcut_data.box_art_id.as_str(),
                found.bare.0,
                found.bare.1,
                found.bare.2,
            ),
        };
        ParsableDataCombined {
            title: shortcut_data.title.clone(),
            app_id: screenshot_data.app_id.clone(),
            path_box_art,
        }
    }

    /// Makes one record of the two.
    pub fn combine(
        path_box_art_dir: &str,
        shortcut_data: &ParsableShortcutData,
        screenshot_data: &ParsableScreenshotData,
    ) -> (r: Self)
        ensures
            is_combined(r@, path_box_art_dir@, shortcut_data@, screenshot_data@),
    {
        let mut with_p = shortcut_data.box_art_id.clone();
        with_p.append("p");
        let found = Found {
            with_p: look_for_images(path_box_art_dir, with_p.as_str()),
            bare: look_for_images(path_box_art_dir, shortcut_data.box_art_id.as_str()),
        };
        Self::combine_found(path_box_art_dir, shortcut_data, screenshot_data, found)
    }
}

/// The source of the games that this module detects.
pub const LAUNCHER: SupportedLaunchers = SupportedLaunchers::SteamShortcuts;

// UTILS -----------------------------------------------------------------------------------------
impl UserDataFiles {
    /// The files of the user whose directory is `path_user_dir`.
    pub open spec fn is_of_user(self, path_user_dir: Seq<char>) -> bool {
        &&& self.path_shortcuts@ == joined(joined(path_user_dir, "config"@), "shortcuts.vdf"@)
        &&& self.path_screenshots@ == joined(joined(path_user_dir, "760"@), "screenshots.vdf"@)
        &&& self.path_box_art_dir@ == joined(joined(path_user_dir, "config"@), "grid"@)
    }

    /// The files of the user whose directory is `path_user_dir`.
    pub fn of_user(path_user_dir: &str) -> (r: Self)
        ensures
            r.is_of_user(path_user_dir@),
    {
        let path_config = join_path(path_user_dir, "config");
        UserDataFiles {
            path_shortcuts: join_path(path_config.as_str(), "shortcuts.vdf"),
            path_screenshots: join_path(
                join_path(path_user_dir, "760").as_str(),
                "screenshots.vdf",
            ),
            path_box_art_dir: join_path(path_config.as_str(), "grid"),
        }
    }
}

/// Asks the file system whether `path_user_dir` is a directory that holds
/// the screenshots file, the shortcuts file and the directory of the images.
pub fn has_userdata_files(path_user_dir: &str) -> bool {
    let files = UserDataFiles::of_user(path_user_dir);
    probe(path_user_dir, PathKind::Dir) && probe(files.path_screenshots.as_str(), PathKind::File)
        && probe(files.path_shortcuts.as_str(), PathKind::File) && probe(
        files.path_box_art_dir.as_str(),
        PathKind::Dir,
    )
}

/// The files of the first of the users' directories whose entry in `found`
/// is `true`. An entry that `found` lacks counts as `false`.
pub fn pick_userdata_files(user_dirs: &Vec<String>, found: &Vec<bool>) -> (r: Option<
    UserDataFiles,
>)
    ensures
        match picked(views(user_dirs@), found@) {
            Some(path_user_dir) => r matches Some(files) && files.is_of_user(path_user_dir),
            None => r is None,
        },
{
    let mut at: usize = 0;
    while at < user_dirs.len() && at < found.len()
        invariant
            forall|j: int| 0 <= j < at ==> !found[j],
        decreases user_dirs.len() - at,
    {
        if found[at] {
            proof {
                lemma_picked_is(views(user_dirs@), found@, at as int);
            }
            return Some(UserDataFiles::of_user(user_dirs[at].as_str()));
        }
        at += 1;
    }
    None
}

/// The files of the first of the users' directories that is a directory
/// and holds the screenshots file, the shortcuts file and the directory of
/// the images: the directories are asked for one after the other, up to the
/// first that has them all, and the answers pick the directory.
pub fn find_userdata_files(user_dirs: &Vec<String>) -> (r: Option<UserDataFiles>)
    ensures
        exists|found: Seq<bool>|
            found.len() <= user_dirs.len() && match #[trigger] picked(views(user_dirs@), found) {
                Some(path_user_dir) => r matches Some(files) && files.is_of_user(path_user_dir),
                None => r is None,
            },
{
    let mut found: Vec<bool> = Vec::new();
    let mut i: usize = 0;
    while i < user_dirs.len()
        invariant_except_break
            found.len() == i,
        invariant
            i <= user_dirs.len(),
        ensures
            found.len() <= user_dirs.len(),
        decreases user_dirs.len() - i,
    {
        let here = has_userdata_files(user_dirs[i].as_str());
        found.push(here);
        if here {
            break ;
        }
        i += 1;
    }
    let r = pick_userdata_files(user_dirs, &found);
    proof {
        let _ = picked(views(user_dirs@), found@);
    }
    r
}

/// The digit of a number below ten.
pub open spec fn digit_char(digit: nat) -> char {
    (('0' as u8) + digit) as u8 as char
}

/// A number in decimal notation, without leading zeros.
pub open spec fn decimal(n: nat) -> Seq<char>
    decreases n,
{
    if n < 10 {
        seq![digit_char(n)]
    } else {
        decimal(n / 10).push(digit_char(n % 10))
    }
}

/// Writes a number in decimal notation.
pub fn decimal_text(n: u32) -> (r: String)
    ensures
        r@ == decimal(n as nat),
{
    let mut reversed: Vec<char> = Vec::new();
    let mut left: u32 = n;
    while left >= 10
        invariant
            decimal(n as nat) == decimal(left as nat) + reversed@.reverse(),
        decreases left,
    {
        let digit: u8 = (left % 10) as u8;
        let ghost before = reversed@;
        reversed.push((48u8 + digit) as char);
        proof {
            assert(decimal(left as nat) == decimal((left / 10) as nat).push(
                digit_char((left % 10) as nat),
            ));
            assert(reversed@.reverse() =~= seq![digit_char((left % 10) as nat)]
                + before.reverse());
            assert(decimal((left / 10) as nat).push(digit_char((left % 10) as nat))
                + before.reverse() =~= decimal((left / 10) as nat) + reversed@.reverse());
        }
        left = left / 10;
    }
    let last: u8 = left as u8;
    let mut digits: Vec<char> = Vec::new();
    digits.push((48u8 + last) as char);
    let mut i: usize = reversed.len();
    while i > 0
        invariant
            i <= reversed.len(),
            digits@ == decimal(left as nat) + reversed@.reverse().take(reversed@.len() - i),
        decreases i,
    {
        i -= 1;
        digits.push(reversed[i]);
        proof {
            assert(digits@ =~= decimal(left as nat) + reversed@.reverse().take(
                reversed@.len() - i,
            ));
        }
    }
    proof {
        assert(reversed@.reverse().take(reversed@.len() as int) =~= reversed@.reverse());
    }
    to_text(digits.as_slice())
}

/// What `shortcuts.vdf` holds: the name and the app id of each shortcut, in
/// the order of the file, or the message that says why it cannot be read.
pub uninterp spec fn shortcut_entries(content: Seq<u8>) -> Result<Seq<(Seq<char>, u32)>, Seq<char>>;

/// The names and app ids, or the message, as text.
pub open spec fn entries_view(r: Result<Vec<(String, u32)>, String>) -> Result<
    Seq<(Seq<char>, u32)>,
    Seq<char>,
> {
    match r {
        Ok(entries) => Ok(views(entries@)),
        Err(message) => Err(message@),
    }
}

/// Trusted: calls `parse_shortcuts` of steam_shortcuts_util, which reads
/// the binary `shortcuts.vdf` and returns its shortcuts or a message. What it
/// returns depends on the bytes alone; of each shortcut the name and the app
/// id are handed on.
#[verifier::external_body]
fn parse_shortcut_entries(content: &[u8]) -> (r: Result<Vec<(String, u32)>, String>)
    ensures
        entries_view(r) == shortcut_entries(content@),
{
    match parse_shortcuts(content) {
        Ok(shortcuts) => Ok(shortcuts.into_iter().map(|s| (s.app_name.to_string(), s.app_id)).collect()),
        Err(message) => Err(message),
    }
}

/// The shortcuts of the entries: the name as the title, and the app id in
/// decimal notation as the id of the images.
pub open spec fn shortcuts_of(entries: Seq<(Seq<char>, u32)>) -> Seq<ShortcutRecord> {
    Seq::new(
        entries.len(),
        |i: int| ShortcutRecord { title: entries[i].0, box_art_id: decimal(entries[i].1 as nat) },
    )
}

/// Turns the entries of `shortcuts.vdf` into shortcuts.
pub fn shortcuts_from(entries: &Vec<(String, u32)>) -> (r: Vec<ParsableShortcutData>)
    ensures
        views(r@) == shortcuts_of(views(entries@)),
{
    let mut shortcuts: Vec<ParsableShortcutData> = Vec::new();
    let mut i: usize = 0;
    while i < entries.len()
        invariant
            i <= entries.len(),
            views(shortcuts@) == shortcuts_of(views(entries@)).take(i as int),
        decreases entries.len() - i,
    {
        let shortcut = ParsableShortcutData {
            title: entries[i].0.clone(),
            box_art_id: decimal_text(entries[i].1),
        };
        proof {
            lemma_views_push(shortcuts@, shortcut);
            assert(views(entries@)[i as int] == entries[i as int]@);
            assert(shortcuts_of(views(entries@)).take(i + 1) =~= shortcuts_of(
                views(entries@),
            ).take(i as int).push(shortcut@));
        }
        shortcuts.push(shortcut);
        i += 1;
    }
    proof {
        assert(shortcuts_of(views(entries@)).take(entries@.len() as int) =~= shortcuts_of(
            views(entries@),
        ));
    }
    shortcuts
}

/// Reads the shortcuts of a user from the bytes of `shortcuts.vdf`. A file
/// that cannot be read gives the error `Other` with the message of the
/// reader.
pub fn get_parsable_shortcuts_data(content: &[u8]) -> (r: Result<
    Vec<ParsableShortcutData>,
    GamesParsingError,
>)
    ensures
        match shortcut_entries(content@) {
            Ok(entries) => r matches Ok(shortcuts) && views(shortcuts@) == shortcuts_of(entries),
            Err(message) => r matches Err(GamesParsingError::Other(text)) && text@ == message,
        },
{
    match parse_shortcut_entries(content) {
        Ok(entries) => Ok(shortcuts_from(&entries)),
        Err(message) => Err(GamesParsingError::Other(message)),
    }
}

/// The entries of a block of names: pairs of quoted spans, an app id and a
/// name, each with at least one character in front of it. The entries end
/// where the block ends or where a quote follows the name of an entry at
/// once; an app id without a name is no match.
pub open spec fn screenshot_entries(block: Seq<char>, found: Seq<ScreenshotRecord>) -> Option<
    Seq<ScreenshotRecord>,
>
    decreases block.len(),
{
    match not_double_quote(block) {
        Some((at_id, _)) => match between_double_quotes(at_id) {
            Some((after_id, app_id)) => match not_double_quote(after_id) {
                Some((at_title, _)) => match between_double_quotes(at_title) {
                    Some((rest, title)) => if rest.len() < block.len() {
                        screenshot_entries(rest, found.push(ScreenshotRecord { title, app_id }))
                    } else {
                        None
                    },
                    None => None,
                },
                None => None,
            },
            None => None,
        },
        None => Some(found),
    }
}

/// One entry of a block of names: two quoted spans, the app id and the
/// name, each with at least one character in front of it.
pub open spec fn name_entry(block: Seq<char>) -> Option<(Seq<char>, ScreenshotRecord)> {
    match not_double_quote(block) {
        Some((at_id, _)) => match between_double_quotes(at_id) {
            Some((after_id, app_id)) => match not_double_quote(after_id) {
                Some((at_title, _)) => match between_double_quotes(at_title) {
                    Some((rest, title)) => Some((rest, ScreenshotRecord { title, app_id })),
                    None => None,
                },
                None => None,
            },
            None => None,
        },
        None => None,
    }
}

/// An entry of a block of names takes at least one character.
pub proof fn lemma_name_entry_shrinks(block: Seq<char>)
    ensures
        name_entry(block) matches Some((rest, _)) ==> is_proper_suffix(rest, block),
{
    if name_entry(block) is Some {
        lemma_take_till1_shrinks(block, CharClass::Only('"'));
        let at_id = (not_double_quote(block)->0).0;
        lemma_between_double_quotes_shrinks(at_id);
        let after_id = (between_double_quotes(at_id)->0).0;
        lemma_take_till1_shrinks(after_id, CharClass::Only('"'));
        let at_title = (not_double_quote(after_id)->0).0;
        lemma_between_double_quotes_shrinks(at_title);
        let rest = (between_double_quotes(at_title)->0).0;
        lemma_suffix_of_suffix(after_id, at_id, block);
        lemma_suffix_of_suffix(at_title, after_id, block);
        lemma_suffix_of_suffix(rest, at_title, block);
    }
}

/// Reads the entries of a block of names, one after the other, and stops
/// without complaint at the first place where no entry stands.
pub struct NameEntryScanner;

impl RecordScanner for NameEntryScanner {
    type Record = ParsableScreenshotData;

    open spec fn extract(&self, text: Seq<char>) -> Option<(Seq<char>, ScreenshotRecord)> {
        name_entry(text)
    }

    proof fn extract_shrinks(&self, text: Seq<char>) {
        lemma_name_entry_shrinks(text);
    }

    fn extract_next(&self, text: &[char]) -> (r: Option<(usize, ParsableScreenshotData)>) {
        proof {
            assert(text@.skip(0) =~= text@);
        }
        let before_id = match scan_not_double_quote(text) {
            Some((before_id, _)) => before_id,
            None => {
                return None;
            },
        };
        let (at_id, rest) = step(text, 0, before_id);
        let (consumed, app_id) = match scan_between_double_quotes(rest) {
            Some(found) => found,
            None => {
                return None;
            },
        };
        let (after_id, rest) = step(text, at_id, consumed);
        let before_title = match scan_not_double_quote(rest) {
            Some((before_title, _)) => before_title,
            None => {
                return None;
            },
        };
        let (at_title, rest) = step(text, after_id, before_title);
        let (consumed, title) = match scan_between_double_quotes(rest) {
            Some(found) => found,
            None => {
                return None;
            },
        };
        let (end, _) = step(text, at_title, consumed);
        Some((end, ParsableScreenshotData { title: to_text(title), app_id: to_text(app_id) }))
    }
}

/// Where the strict reading of a block succeeds, it finds the entries that
/// the lenient record loop finds.
pub proof fn lemma_screenshot_entries_are_records(block: Seq<char>, found: Seq<ScreenshotRecord>)
    ensures
        screenshot_entries(block, found) matches Some(entries) ==> entries == found + scan_all(
            &NameEntryScanner,
            block,
        ),
    decreases block.len(),
{
    if screenshot_entries(block, found) is Some {
        match name_entry(block) {
            Some((rest, entry)) => {
                lemma_name_entry_shrinks(block);
                lemma_screenshot_entries_are_records(rest, found.push(entry));
                assert(found.push(entry) + scan_all(&NameEntryScanner, rest) =~= found + (
                seq![entry] + scan_all(&NameEntryScanner, rest)));
            },
            None => {
                assert(found + Seq::<ScreenshotRecord>::empty() =~= found);
            },
        }
    }
}

/// A text that can stand between double quotes: not empty, and without
/// double quote.
pub open spec fn is_quotable(text: Seq<char>) -> bool {
    &&& text.len() > 0
    &&& forall|i: int| 0 <= i < text.len() ==> #[trigger] text[i] != '"'
}

/// The line of an entry: a tab, the quoted app id, two tabs, the quoted
/// name, and a line feed.
pub open spec fn entry_line(entry: ScreenshotRecord) -> Seq<char> {
    seq!['\t', '"'] + entry.app_id + seq!['"', '\t', '\t', '"'] + entry.title + seq!['"', '\n']
}

/// The lines of the entries, one after the other.
pub open spec fn entry_lines(entries: Seq<ScreenshotRecord>) -> Seq<char>
    decreases entries.len(),
{
    if entries.len() == 0 {
        Seq::empty()
    } else {
        entry_line(entries[0]) + entry_lines(entries.skip(1))
    }
}

/// A quoted span that is known to end at `at` is read up to there.
proof fn lemma_quoted_span_at(quoted: Seq<char>, text: Seq<char>, more: Seq<char>)
    requires
        is_quotable(text),
        quoted == seq!['"'] + text + seq!['"'] + more,
    ensures
        between_double_quotes(quoted) == Some((more, text)),
{
    let body = text + seq!['"'] + more;
    assert(quoted.skip(1) =~= body);
    assert(is_run_end(body, CharClass::Only('"'), false, text.len() as int)) by {
        assert forall|i: int| 0 <= i < text.len() implies CharClass::Only('"').contains(
            #[trigger] body[i],
        ) == false by {
            assert(body[i] == text[i]);
        }
        assert(body[text.len() as int] == '"');
    }
    lemma_run_end_is(body, CharClass::Only('"'), false, text.len() as int);
    assert(body.take(text.len() as int) =~= text);
    assert(body.skip(text.len() as int + 1) =~= more);
}

/// An entry is read from its line, and what is left starts at the end of
/// that line.
pub proof fn lemma_name_entry_reads_line(lead: Seq<char>, entry: ScreenshotRecord, more: Seq<char>)
    requires
        is_lead(lead),
        is_quotable(entry.app_id),
        is_quotable(entry.title),
    ensures
        name_entry(lead + entry_line(entry) + more) == Some((seq!['\n'] + more, entry)),
{
    let end = seq!['\n'] + more;
    let text = lead + entry_line(entry) + more;
    let after_id = seq!['\t', '\t', '"'] + entry.title + seq!['"'] + end;
    let at_id = seq!['"'] + entry.app_id + seq!['"'] + after_id;
    let at_title = seq!['"'] + entry.title + seq!['"'] + end;
    assert(text =~= lead + seq!['\t'] + at_id);
    assert(is_run_end(text, CharClass::Only('"'), false, lead.len() as int + 1)) by {
        assert(text[lead.len() as int] == '\t');
        assert(text[lead.len() as int + 1] == '"');
        if lead.len() > 0 {
            assert(text[0] == '\n');
        }
    }
    lemma_run_end_is(text, CharClass::Only('"'), false, lead.len() as int + 1);
    assert(text.skip(lead.len() as int + 1) =~= at_id);
    lemma_quoted_span_at(at_id, entry.app_id, after_id);
    assert(after_id =~= seq!['\t', '\t'] + at_title);
    assert(is_run_end(after_id, CharClass::Only('"'), false, 2)) by {
        assert(after_id[0] == '\t');
        assert(after_id[1] == '\t');
        assert(after_id[2] == '"');
    }
    lemma_run_end_is(after_id, CharClass::Only('"'), false, 2);
    assert(after_id.skip(2) =~= at_title);
    lemma_quoted_span_at(at_title, entry.title, end);
}

/// A block that holds one entry on each line is read back as the entries
/// that were written to it: every entry once, in the order of the block.
pub proof fn lemma_entries_are_read_back(entries: Seq<ScreenshotRecord>, lead: Seq<char>)
    requires
        is_lead(lead),
        forall|i: int|
            0 <= i < entries.len() ==> is_quotable((#[trigger] entries[i]).app_id) && is_quotable(
                entries[i].title,
            ),
    ensures
        scan_all(&NameEntryScanner, lead + entry_lines(entries)) == entries,
    decreases entries.len(),
{
    if entries.len() == 0 {
        assert(lead + entry_lines(entries) =~= lead);
        assert(name_entry(lead) is None) by {
            if lead.len() == 0 {
                assert(is_run_end(lead, CharClass::Only('"'), false, 0));
                lemma_run_end_is(lead, CharClass::Only('"'), false, 0);
            } else {
                assert(is_run_end(lead, CharClass::Only('"'), false, 1));
                lemma_run_end_is(lead, CharClass::Only('"'), false, 1);
                assert(lead.skip(1).len() == 0);
            }
        }
        assert(scan_all(&NameEntryScanner, lead) =~= entries);
    } else {
        let later = entry_lines(entries.skip(1));
        assert(lead + entry_lines(entries) =~= lead + entry_line(entries[0]) + later);
        lemma_name_entry_reads_line(lead, entries[0], later);
        assert forall|i: int| 0 <= i < entries.skip(1).len() implies is_quotable(
            (#[trigger] entries.skip(1)[i]).app_id,
        ) && is_quotable(entries.skip(1)[i].title) by {
            assert(entries.skip(1)[i] == entries[i + 1]);
        }
        lemma_entries_are_read_back(entries.skip(1), seq!['\n']);
        assert(seq![entries[0]] + entries.skip(1) =~= entries);
    }
}

/// What `screenshots.vdf` says of the shortcuts: the entries of the block
/// in braces that follows the tag `"shortcutnames"`. The block ends at the
/// first closing brace; the text that is left starts after it.
pub open spec fn screenshots_vdf(content: Seq<char>) -> Option<(Seq<char>, Seq<ScreenshotRecord>)> {
    match until_key(content, json_key("shortcutnames"@)) {
        Some((at_tag, _)) => {
            let at_brace = take_till(at_tag, CharClass::Only('{')).0;
            if at_brace.len() == 0 {
                None
            } else {
                let (at_close, block) = take_till(at_brace.skip(1), CharClass::Only('}'));
                if at_close.len() == 0 {
                    None
                } else {
                    match screenshot_entries(trimmed_end(block), Seq::empty()) {
                        Some(entries) => Some((at_close.skip(1), entries)),
                        None => None,
                    }
                }
            }
        },
        None => None,
    }
}

fn scan_screenshot_entries(block: &[char]) -> (r: Option<Vec<ParsableScreenshotData>>)
    ensures
        match r {
            Some(entries) => screenshot_entries(block@, Seq::empty()) == Some(views(entries@)),
            None => screenshot_entries(block@, Seq::empty()) is None,
        },
{
    let mut data: Vec<ParsableScreenshotData> = Vec::new();
    let mut pos: usize = 0;
    proof {
        assert(block@.skip(0) =~= block@);
        assert(views(data@) =~= Seq::empty());
    }
    loop
        invariant
            pos <= block@.len(),
            screenshot_entries(block@, Seq::empty()) == screenshot_entries(
                block@.skip(pos as int),
                views(data@),
            ),
        decreases block@.len() - pos,
    {
        let (_, here) = step(block, pos, 0);
        proof {
            lemma_take_till1_shrinks(here@, CharClass::Only('"'));
        }
        let before_id = match scan_not_double_quote(here) {
            Some((before_id, _)) => before_id,
            None => {
                return Some(data);
            },
        };
        let (at_id, rest) = step(block, pos, before_id);
        // APP ID
        let (consumed, app_id) = match scan_between_double_quotes(rest) {
            Some(found) => found,
            None => {
                return None;
            },
        };
        let (after_id, rest) = step(block, at_id, consumed);
        let before_title = match scan_not_double_quote(rest) {
            Some((before_title, _)) => before_title,
            None => {
                return None;
            },
        };
        let (at_title, rest) = step(block, after_id, before_title);
        // TITLE
        let (consumed, title) = match scan_between_double_quotes(rest) {
            Some(found) => found,
            None => {
                return None;
            },
        };
        let (end, _) = step(block, at_title, consumed);
        let entry = ParsableScreenshotData { title: to_text(title), app_id: to_text(app_id) };
        proof {
            lemma_views_push(data@, entry);
        }
        data.push(entry);
        pos = end;
    }
}

/// Reads the names of the shortcuts from the characters of `screenshots.vdf`.
pub fn scan_screenshots_vdf(content: &[char]) -> (r: Option<(usize, Vec<ParsableScreenshotData>)>)
    ensures
        match r {
            Some((consumed, entries)) => consumed <= content@.len() && screenshots_vdf(content@)
                == Some((content@.skip(consumed as int), views(entries@))),
            None => screenshots_vdf(content@) is None,
        },
{
    // Parse until "shortcutnames" and grab the next block contained by `{}`
    let name = to_chars("shortcutnames");
    let tag = json_key_chars(name.as_slice());
    let at_tag = match find(content, tag.as_slice()) {
        Some(at_tag) => at_tag,
        None => {
            return None;
        },
    };
    let (pos, rest) = step(content, 0, at_tag);
    let (to_brace, _) = scan_till(rest, CharClass::Only('{'));
    let (pos, rest) = step(content, pos, to_brace);
    if rest.len() == 0 {
        return None;
    }
    let (pos, rest) = step(content, pos, 1);
    let (block_len, block) = scan_till(rest, CharClass::Only('}'));
    let (pos, rest) = step(content, pos, block_len);
    if rest.len() == 0 {
        return None;
    }
    let (pos, _) = step(content, pos, 1);
    // Remove trailing whitespace so the below while block condition fails before running with the empty line
    match scan_screenshot_entries(trim_end(block)) {
        Some(data) => Some((pos, data)),
        None => None,
    }
}

/// Reads the entries of the shortcuts from the text of `screenshots.vdf`.
/// A file without the block of names, or with a broken entry in it, gives
/// the error `Nom`.
pub fn get_parsable_screenshots_data(file_content: &str) -> (r: Result<
    Vec<ParsableScreenshotData>,
    GamesParsingError,
>)
    ensures
        match screenshots_vdf(file_content@) {
            Some((_, entries)) => r matches Ok(data) && views(data@) == entries,
            None => r matches Err(GamesParsingError::Nom(what)) && what@ == "shortcutnames"@,
        },
{
    let content = to_chars(file_content);
    match scan_screenshots_vdf(content.as_slice()) {
        Some((_, data)) => Ok(data),
        None => Err(GamesParsingError::Nom("shortcutnames".to_owned())),
    }
}

/// An entry that was joined with a shortcut: it has no name any more, and
/// so matches no further shortcut.
pub open spec fn taken() -> ScreenshotRecord {
    ScreenshotRecord { title: Seq::empty(), app_id: Seq::empty() }
}

/// `at` is the index of the last entry of `screenshots` that has the name
/// `title`, which is not empty.
pub open spec fn is_last_named(screenshots: Seq<ScreenshotRecord>, title: Seq<char>, at: int) -> bool {
    &&& 0 <= at < screenshots.len()
    &&& title.len() > 0
    &&& screenshots[at].title == title
    &&& forall|j: int| at < j < screenshots.len() ==> (#[trigger] screenshots[j]).title != title
}

/// The index of the last entry of `screenshots` with the name `title`. The
/// last entry is the newest one, and the file does not seem to get reset, so
/// it is the one most likely to be right.
pub open spec fn last_named(screenshots: Seq<ScreenshotRecord>, title: Seq<char>) -> Option<int> {
    if exists|at: int| is_last_named(screenshots, title, at) {
        Some(choose|at: int| is_last_named(screenshots, title, at))
    } else {
        None
    }
}

/// The pairs of the join: each shortcut, in the order of the shortcuts,
/// with the last entry of the screenshots file that has its name and was
/// not joined with a shortcut before. A shortcut without such an entry is
/// left out.
pub open spec fn joined_pairs(shortcuts: Seq<ShortcutRecord>, screenshots: Seq<ScreenshotRecord>) -> Seq<
    (ShortcutRecord, ScreenshotRecord),
>
    decreases shortcuts.len(),
{
    if shortcuts.len() == 0 {
        Seq::empty()
    } else {
        match last_named(screenshots, shortcuts[0].title) {
            Some(at) => seq![(shortcuts[0], screenshots[at])] + joined_pairs(
                shortcuts.skip(1),
                screenshots.update(at, taken()),
            ),
            None => joined_pairs(shortcuts.skip(1), screenshots),
        }
    }
}

/// The last entry with a name is in one place only.
pub proof fn lemma_last_named_is(screenshots: Seq<ScreenshotRecord>, title: Seq<char>, at: int)
    requires
        is_last_named(screenshots, title, at),
    ensures
        last_named(screenshots, title) == Some(at),
{
    let chosen = choose|k: int| is_last_named(screenshots, title, k);
    assert(is_last_named(screenshots, title, chosen));
    if chosen < at {
        assert(screenshots[at].title != title);
    }
    if at < chosen {
        assert(screenshots[chosen].title != title);
    }
}

/// The index of the last entry of `screenshots` with the name `title`.
pub fn find_last_named(screenshots: &Vec<ParsableScreenshotData>, title: &String) -> (r: Option<
    usize,
>)
    ensures
        match r {
            Some(at) => at < screenshots.len() && last_named(views(screenshots@), title@) == Some(
                at as int,
            ),
            None => last_named(views(screenshots@), title@) is None,
        },
{
    if title.as_str().is_empty() {
        return None;
    }
    let mut at: usize = screenshots.len();
    while at > 0
        invariant
            at <= screenshots.len(),
            title@.len() > 0,
            forall|j: int|
                at <= j < screenshots.len() ==> (#[trigger] views(screenshots@)[j]).title
                    != title@,
        decreases at,
    {
        at -= 1;
        if screenshots[at].title == *title {
            proof {
                assert(views(screenshots@)[at as int] == screenshots[at as int]@);
                lemma_last_named_is(views(screenshots@), title@, at as int);
            }
            return Some(at);
        }
        proof {
            assert(views(screenshots@)[at as int] == screenshots[at as int]@);
        }
    }
    None
}

/// Joins the shortcuts with the entries of the screenshots file and looks
/// for the box art of each pair.
pub fn combine_all(
    path_box_art_dir: &str,
    shortcuts: &Vec<ParsableShortcutData>,
    screenshots: Vec<ParsableScreenshotData>,
) -> (r: Vec<ParsableDataCombined>)
    ensures
        r.len() == joined_pairs(views(shortcuts@), views(screenshots@)).len(),
        forall|i: int|
            0 <= i < r.len() ==> is_combined(
                #[trigger] r[i]@,
                path_box_art_dir@,
                joined_pairs(views(shortcuts@), views(screenshots@))[i].0,
                joined_pairs(views(shortcuts@), views(screenshots@))[i].1,
            ),
{
    let ghost all = joined_pairs(views(shortcuts@), views(screenshots@));
    let ghost mut done: Seq<(ShortcutRecord, ScreenshotRecord)> = Seq::empty();
    let mut screenshots = screenshots;
    let mut combined_data: Vec<ParsableDataCombined> = Vec::new();
    let mut i: usize = 0;
    proof {
        assert(views(shortcuts@).skip(0) =~= views(shortcuts@));
        assert(done + all =~= all);
    }
    while i < shortcuts.len()
        invariant
            i <= shortcuts.len(),
            all == done + joined_pairs(views(shortcuts@).skip(i as int), views(screenshots@)),
            combined_data.len() == done.len(),
            forall|k: int|
                0 <= k < combined_data.len() ==> is_combined(
                    #[trigger] combined_data[k]@,
                    path_box_art_dir@,
                    done[k].0,
                    done[k].1,
                ),
        decreases shortcuts.len() - i,
    {
        proof {
            assert(views(shortcuts@).skip(i as int)[0] == shortcuts[i as int]@);
            assert(views(shortcuts@).skip(i as int).skip(1) =~= views(shortcuts@).skip(i + 1));
        }
        match find_last_named(&screenshots, &shortcuts[i].title) {
            Some(at) => {
                let record = ParsableDataCombined::combine(
                    path_box_art_dir,
                    &shortcuts[i],
                    &screenshots[at],
                );
                let ghost before = views(screenshots@);
                let ghost pair = (shortcuts[i as int]@, screenshots[at as int]@);
                proof {
                    assert(before[at as int] == screenshots[at as int]@);
                }
                screenshots.set(
                    at,
                    ParsableScreenshotData { title: String::new(), app_id: String::new() },
                );
                combined_data.push(record);
                proof {
                    assert(views(screenshots@) =~= before.update(at as int, taken()));
                    assert(done + (seq![pair] + joined_pairs(
                        views(shortcuts@).skip(i + 1),
                        views(screenshots@),
                    )) =~= done.push(pair) + joined_pairs(
                        views(shortcuts@).skip(i + 1),
                        views(screenshots@),
                    ));
                    done = done.push(pair);
                }
            },
            None => {},
        }
        i += 1;
    }
    proof {
        assert(done + Seq::<(ShortcutRecord, ScreenshotRecord)>::empty() =~= done);
    }
    combined_data
}

/// Whether `data` is what the two files of a user give.
pub open spec fn is_combined_data(
    data: Seq<ParsableDataCombined>,
    path_box_art_dir: Seq<char>,
    shortcuts: Seq<ShortcutRecord>,
    screenshots: Seq<ScreenshotRecord>,
) -> bool {
    &&& data.len() == joined_pairs(shortcuts, screenshots).len()
    &&& forall|i: int|
        0 <= i < data.len() ==> is_combined(
            #[trigger] data[i]@,
            path_box_art_dir,
            joined_pairs(shortcuts, screenshots)[i].0,
            joined_pairs(shortcuts, screenshots)[i].1,
        )
}

// STEAM SHORTCUTS / NON-STEAM GAMES ---------------------------------------------------------------
#[derive(Debug)]
pub struct SteamShortcuts {
    pub path_steam_userdata_dir: String,
    pub is_using_flatpak: bool,
}

impl SteamShortcuts {
    /// The source of the games of this launcher.
    pub fn get_launcher_type(&self) -> (r: SupportedLaunchers)
        ensures
            r == SupportedLaunchers::SteamShortcuts,
    {
        SupportedLaunchers::SteamShortcuts
    }

    /// Asks the file system whether the launcher is there. The answer
    /// depends on what is on disk, so nothing is stated of it.
    pub fn is_detected(&self) -> bool {
        probe(self.path_steam_userdata_dir.as_str(), PathKind::Dir)
    }

    /// Whether this is the launcher for the given directories.
    pub open spec fn is_located(self, path_home: Seq<char>, path_data: Seq<char>, native_found: bool) -> bool {
        &&& self.is_using_flatpak == !native_found
        &&& self.path_steam_userdata_dir@ == if native_found {
            joined(joined(path_data, "Steam"@), "userdata"@)
        } else {
            joined(
                joined(path_home, ".var/app/com.valvesoftware.Steam/data/Steam"@),
                "userdata"@,
            )
        }
    }

    /// The launcher, once it is known whether the native directory of the
    /// users exists.
    pub fn located(path_home: &str, path_data: &str, native_found: bool) -> (r: Self)
        ensures
            r.is_located(path_home@, path_data@, native_found),
    {
        let path_steam_dir = if native_found {
            get_steam_dir(path_data)
        } else {
            get_steam_flatpak_dir(path_home)
        };
        SteamShortcuts {
            path_steam_userdata_dir: join_path(path_steam_dir.as_str(), "userdata"),
            is_using_flatpak: !native_found,
        }
    }

    /// Looks for the directory of the users of Steam and falls back to the
    /// flatpak's where it is missing.
    pub fn new(path_home: &str, path_data: &str) -> (r: Self)
        ensures
            r.is_located(path_home@, path_data@, true) || r.is_located(
                path_home@,
                path_data@,
                false,
            ),
    {
        let path_steam_userdata_dir = join_path(get_steam_dir(path_data).as_str(), "userdata");
        let native_found = probe(path_steam_userdata_dir.as_str(), PathKind::Dir);
        Self::located(path_home, path_data, native_found)
    }

    /// The shortcuts of a user, from the bytes of `shortcuts.vdf` and the
    /// text of `screenshots.vdf`. A shortcuts file that cannot be read gives
    /// the error `Other`; a screenshots file that cannot be read gives the
    /// error `Nom`; where both fail the first is reported.
    pub fn parse_combined_data(
        path_box_art_dir: &str,
        shortcuts_content: &[u8],
        screenshots_content: &str,
    ) -> (r: Result<Vec<ParsableDataCombined>, GamesParsingError>)
        ensures
            match shortcut_entries(shortcuts_content@) {
                Ok(entries) => match screenshots_vdf(screenshots_content@) {
                    Some((_, screenshots)) => r matches Ok(data) && is_combined_data(
                        data@,
                        path_box_art_dir@,
                        shortcuts_of(entries),
                        screenshots,
                    ),
                    None => r matches Err(GamesParsingError::Nom(what)) && what@
                        == "shortcutnames"@,
                },
                Err(message) => r matches Err(GamesParsingError::Other(text)) && text@ == message,
            },
    {
        let shortcuts_data = match get_parsable_shortcuts_data(shortcuts_content) {
            Ok(data) => data,
            Err(e) => {
                return Err(e);
            },
        };
        let screenshots_data = match get_parsable_screenshots_data(screenshots_content) {
            Ok(data) => data,
            Err(e) => {
                return Err(e);
            },
        };
        Ok(combine_all(path_box_art_dir, &shortcuts_data, screenshots_data))
    }

    /// The game of a shortcut. A shortcut has no directory and no icon.
    pub open spec fn game_of(is_using_flatpak: bool, data: CombinedRecord) -> GameView {
        GameView {
            title: cleaned_title(data.title),
            path_icon: None,
            path_box_art: data.path_box_art,
            path_game_dir: None,
            launch_command: steam_launch_command(data.app_id, is_using_flatpak),
            source: SupportedLaunchers::SteamShortcuts,
        }
    }

    /// The games of the shortcuts, one for each, in their order.
    pub fn get_detected_games(&self, shortcut_data: &Vec<ParsableDataCombined>) -> (r: Vec<Game>)
        ensures
            r.len() == shortcut_data.len(),
            forall|i: int|
                0 <= i < r.len() ==> (#[trigger] r[i])@ == Self::game_of(
                    self.is_using_flatpak,
                    shortcut_data[i]@,
                ),
    {
        let mut games: Vec<Game> = Vec::new();
        let mut i: usize = 0;
        while i < shortcut_data.len()
            invariant
                i <= shortcut_data.len(),
                games.len() == i,
                forall|k: int|
                    0 <= k < i ==> (#[trigger] games[k])@ == Self::game_of(
                        self.is_using_flatpak,
                        shortcut_data[k]@,
                    ),
            decreases shortcut_data.len() - i,
        {
            let data = &shortcut_data[i];
            let game = Game {
                title: clean_game_title(data.title.as_str()),
                launch_command: get_steam_launch_command(
                    data.app_id.as_str(),
                    self.is_using_flatpak,
                ),
                path_box_art: match &data.path_box_art {
                    Some(path) => Some(path.clone()),
                    None => None,
                },
                path_game_dir: None,
                path_icon: None,
                source: LAUNCHER,
            };
            games.push(game);
            i += 1;
        }
        games
    }
}

} // verus!
