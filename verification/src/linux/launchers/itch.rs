// PATHS:
// - ~/.config/itch/db/butler.db
// - ~/.var/app/io.itch.itch/config/itch/db/butler.db
//! itch: the games that the database of butler lists, each with the
//! verdict that says where its executable is.

use vstd::prelude::*;
use crate::data::{Game, GameView, SupportedLaunchers};
use crate::error::GamesParsingError;
use crate::parsers::{scan_value_json, step, value_json};
use crate::text::{lemma_views_push, text_of, to_chars, to_text, views};
use crate::utils::commands::{LaunchCommand, LaunchCommandView};
use crate::utils::paths::{join_path, joined, probe, PathKind};
use crate::utils::strings::{clean_game_title, cleaned_title};

verus! {

/// The source of the games that this module detects.
pub const LAUNCHER: SupportedLaunchers = SupportedLaunchers::Itch;

/// Data returned directly by the query to the Butler DB
#[derive(Debug, Clone, PartialEq, Eq)]
pub struct DbRow {
    pub game_title: String,
    pub _game_url: String,
    pub _game_cover: String,
    pub install_locations_base_path: String,
    pub caves_id: String,
    pub caves_verdict: String,
}

/// Formatted, useful data built from [`DbRow`].
#[derive(Debug, Clone, PartialEq, Eq)]
pub struct DbData {
    pub title: String,
    pub path_game_dir: String,
    pub path_bin: String,
    pub interpreter: Option<String>,
}

/// What a verdict says of the executable of a game.
#[derive(Debug, Clone, PartialEq, Eq)]
pub struct ParsedVerdict {
    pub game_dir: String,
    pub bin: String,
    pub interpreter: Option<String>,
}

/// What is read of a row of the database, as text.
pub struct DbRowView {
    pub game_title: Seq<char>,
    pub caves_verdict: Seq<char>,
}

/// The data of a game, as text.
pub struct DbDataView {
    pub title: Seq<char>,
    pub path_game_dir: Seq<char>,
    pub path_bin: Seq<char>,
    pub interpreter: Option<Seq<char>>,
}

/// What a verdict says, as text.
pub struct Verdict {
    pub game_dir: Seq<char>,
    pub bin: Seq<char>,
    pub interpreter: Option<Seq<char>>,
}

impl View for DbRow {
    type V = DbRowView;

    /// Of a row only the title and the verdict are read.
    open spec fn view(&self) -> DbRowView {
        DbRowView { game_title: self.game_title@, caves_verdict: self.caves_verdict@ }
    }
}

impl View for DbData {
    type V = DbDataView;

    open spec fn view(&self) -> DbDataView {
        DbDataView {
            title: self.title@,
            path_game_dir: self.path_game_dir@,
            path_bin: self.path_bin@,
            interpreter: text_of(self.interpreter),
        }
    }
}

impl View for ParsedVerdict {
    type V = Verdict;

    open spec fn view(&self) -> Verdict {
        Verdict { game_dir: self.game_dir@, bin: self.bin@, interpreter: text_of(self.interpreter) }
    }
}

/// What a verdict says: the values of `basePath` and, after it, of `path`,
/// which must both be there, and the value of `interpreter` where one
/// follows.
pub open spec fn verdict_of(verdict: Seq<char>) -> Option<(Seq<char>, Verdict)> {
    match value_json(verdict, "basePath"@) {
        Some((after_dir, game_dir)) => match value_json(after_dir, "path"@) {
            Some((after_bin, bin)) => match value_json(after_bin, "interpreter"@) {
                Some((rest, interpreter)) => Some(
                    (rest, Verdict { game_dir, bin, interpreter: Some(interpreter) }),
                ),
                None => Some((after_bin, Verdict { game_dir, bin, interpreter: None })),
            },
            None => None,
        },
        None => None,
    }
}

/// The data of a row: its title, cleaned, and what its verdict says, the
/// executable taken below the directory of the game.
pub open spec fn db_data_of(row: DbRowView) -> Option<DbDataView> {
    match verdict_of(row.caves_verdict) {
        Some((_, verdict)) => Some(
            DbDataView {
                title: cleaned_title(row.game_title),
                path_game_dir: verdict.game_dir,
                path_bin: joined(verdict.game_dir, verdict.bin),
                interpreter: verdict.interpreter,
            },
        ),
        None => None,
    }
}

impl ParsedVerdict {
    /// Reads a verdict, given as characters: the number of characters consumed and what it says.
    pub fn scan_verdict(verdict: &[char]) -> (r: Option<(usize, ParsedVerdict)>)
        ensures
            match r {
                Some((consumed, parsed)) => consumed <= verdict@.len() && verdict_of(verdict@)
                    == Some((verdict@.skip(consumed as int), parsed@)),
                None => verdict_of(verdict@) is None,
            },
    {
        proof {
            assert(verdict@.skip(0) =~= verdict@);
        }
        // GAME DIR
        let key_game_dir = to_chars("basePath");
        let (consumed, path_game_dir) = match scan_value_json(verdict, key_game_dir.as_slice()) {
            Some(found) => found,
            None => {
                return None;
            },
        };
        let (pos, rest) = step(verdict, 0, consumed);
        // PATH
        let key_bin = to_chars("path");
        let (consumed, path_bin) = match scan_value_json(rest, key_bin.as_slice()) {
            Some(found) => found,
            None => {
                return None;
            },
        };
        let (pos, rest) = step(verdict, pos, consumed);
        // INTERPRETER
        let key_interpreter = to_chars("interpreter");
        let (pos, interpreter) = match scan_value_json(rest, key_interpreter.as_slice()) {
            Some((consumed, interpreter)) => {
                let (pos, _) = step(verdict, pos, consumed);
                (pos, Some(to_text(interpreter)))
            },
            None => (pos, None),
        };
        Some(
            (
                pos,
                ParsedVerdict { game_dir: to_text(path_game_dir), bin: to_text(path_bin), interpreter },
            ),
        )
    }

    /// Reads a verdict.
    pub fn from_verdict_str(verdict: &str) -> (r: Option<ParsedVerdict>)
        ensures
            match r {
                Some(parsed) => verdict_of(verdict@) matches Some((_, said)) && said == parsed@,
                None => verdict_of(verdict@) is None,
            },
    {
        let chars = to_chars(verdict);
        match Self::scan_verdict(chars.as_slice()) {
            Some((_, parsed)) => Some(parsed),
            None => None,
        }
    }
}

impl DbData {
    /// Build [`DbData`] from [`DbRow`]. A verdict without `basePath` or
    /// without `path` gives the error `Nom`.
    pub fn from_db_row(row: &DbRow) -> (r: Result<Self, GamesParsingError>)
        ensures
            match db_data_of(row@) {
                Some(data) => r matches Ok(built) && built@ == data,
                None => r matches Err(GamesParsingError::Nom(what)) && what@ == "verdict"@,
            },
    {
        let title = clean_game_title(row.game_title.as_str());
        let parsed_verdict = match ParsedVerdict::from_verdict_str(row.caves_verdict.as_str()) {
            Some(parsed) => parsed,
            None => {
                return Err(GamesParsingError::Nom("verdict".to_owned()));
            },
        };
        let path_bin = join_path(parsed_verdict.game_dir.as_str(), parsed_verdict.bin.as_str());
        Ok(
            Self {
                title,
                path_game_dir: parsed_verdict.game_dir,
                path_bin,
                interpreter: parsed_verdict.interpreter,
            },
        )
    }
}

/// The launcher: where the database of butler is, and whether itch runs in a flatpak.
#[derive(Debug)]
pub struct Itch {
    pub path_butler_db: String,
    pub is_using_flatpak: bool,
}

impl Itch {
    /// The source of the games of this launcher.
    pub fn get_launcher_type(&self) -> (r: SupportedLaunchers)
        ensures
            r == SupportedLaunchers::Itch,
    {
        SupportedLaunchers::Itch
    }

    /// Asks the file system whether the launcher is there. The answer
    /// depends on what is on disk, so nothing is stated of it.
    pub fn is_detected(&self) -> bool {
        probe(self.path_butler_db.as_str(), PathKind::File)
    }

    /// Whether this is the launcher for the given directories.
    pub open spec fn is_located(self, path_home: Seq<char>, path_config: Seq<char>, native_found: bool) -> bool {
        &&& self.is_using_flatpak == !native_found
        &&& self.path_butler_db@ == joined(
            joined(
                if native_found {
                    joined(path_config, "itch"@)
                } else {
                    joined(joined(path_home, ".var/app/io.itch.itch"@), "config/itch"@)
                },
                "db"@,
            ),
            "butler.db"@,
        )
    }

    /// The launcher, once it is known whether the native directory exists.
    pub fn located(path_home: &str, path_config: &str, native_found: bool) -> (r: Self)
        ensures
            r.is_located(path_home@, path_config@, native_found),
    {
        let path_config_itch = if native_found {
            join_path(path_config, "itch")
        } else {
            let path_flatpak = join_path(path_home, ".var/app/io.itch.itch");
            join_path(path_flatpak.as_str(), "config/itch")
        };
        Itch {
            path_butler_db: join_path(
                join_path(path_config_itch.as_str(), "db").as_str(),
                "butler.db",
            ),
            is_using_flatpak: !native_found,
        }
    }

    /// Looks for the directory of itch and falls back to the flatpak's
    /// where it is missing.
    pub fn new(path_home: &str, path_config: &str) -> (r: Self)
        ensures
            r.is_located(path_home@, path_config@, true) || r.is_located(
                path_home@,
                path_config@,
                false,
            ),
    {
        let path_config_itch = join_path(path_config, "itch");
        let native_found = probe(path_config_itch.as_str(), PathKind::Dir);
        Self::located(path_home, path_config, native_found)
    }

    /// The game of one row of the database: it is launched by its
    /// interpreter, where it has one, with the executable as the argument,
    /// else by the executable itself.
    pub open spec fn game_of(data: DbDataView) -> GameView {
        GameView {
            title: data.title,
            path_icon: None,
            path_box_art: None,
            path_game_dir: Some(data.path_game_dir),
            launch_command: match data.interpreter {
                Some(interpreter) => LaunchCommandView {
                    program: interpreter,
                    args: seq![data.path_bin],
                    envs: Seq::empty(),
                },
                None => LaunchCommandView {
                    program: data.path_bin,
                    args: Seq::empty(),
                    envs: Seq::empty(),
                },
            },
            source: SupportedLaunchers::Itch,
        }
    }

    /// The games of the rows, in their order; a row whose verdict cannot be
    /// read is passed over.
    pub open spec fn games_of(rows: Seq<DbRowView>) -> Seq<GameView>
        decreases rows.len(),
    {
        if rows.len() == 0 {
            Seq::empty()
        } else {
            let before = Self::games_of(rows.drop_last());
            match db_data_of(rows.last()) {
                Some(data) => before.push(Self::game_of(data)),
                None => before,
            }
        }
    }

    /// Builds the game of one row of the database.
    pub fn game_from(data: DbData) -> (r: Game)
        ensures
            r@ == Self::game_of(data@),
    {
        let ghost view = data@;
        let DbData { title, path_game_dir, path_bin, interpreter } = data;
        let launch_command = match interpreter {
            Some(interpreter) => {
                let mut args: Vec<String> = Vec::new();
                args.push(path_bin);
                proof {
                    assert(views(args@) =~= seq![view.path_bin]);
                    assert(views(Seq::<(String, String)>::empty()) =~= Seq::empty());
                }
                LaunchCommand { program: interpreter, args, envs: Vec::new() }
            },
            None => {
                proof {
                    assert(views(Seq::<String>::empty()) =~= Seq::<Seq<char>>::empty());
                    assert(views(Seq::<(String, String)>::empty()) =~= Seq::empty());
                }
                LaunchCommand { program: path_bin, args: Vec::new(), envs: Vec::new() }
            },
        };
        Game {
            title,
            path_icon: None,
            path_box_art: None,
            path_game_dir: Some(path_game_dir),
            launch_command,
            source: LAUNCHER,
        }
    }

    /// The games of itch, from the rows that the database returned.
    pub fn get_detected_games(db_rows: &Vec<DbRow>) -> (r: Vec<Game>)
        ensures
            views(r@) == Self::games_of(views(db_rows@)),
    {
        let mut games: Vec<Game> = Vec::new();
        let mut i: usize = 0;
        proof {
            assert(views(db_rows@).take(0) =~= Seq::empty());
            assert(views(games@) =~= Seq::empty());
        }
        while i < db_rows.len()
            invariant
                i <= db_rows.len(),
                views(games@) == Self::games_of(views(db_rows@).take(i as int)),
            decreases db_rows.len() - i,
        {
            proof {
                let upto = views(db_rows@).take(i + 1);
                assert(upto.drop_last() =~= views(db_rows@).take(i as int));
                assert(upto.last() == db_rows[i as int]@);
            }
            match DbData::from_db_row(&db_rows[i]) {
                Ok(data) => {
                    let game = Self::game_from(data);
                    proof {
                        lemma_views_push(games@, game);
                    }
                    games.push(game);
                },
                Err(_) => {},
            }
            i += 1;
        }
        proof {
            assert(views(db_rows@).take(db_rows@.len() as int) =~= views(db_rows@));
        }
        games
    }
}

} // verus!
