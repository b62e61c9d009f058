use lib_game_detector::data::SupportedLaunchers;
use lib_game_detector::detector::{
    get_all_detected_games, get_all_detected_games_from_specific_launcher,
    get_all_detected_games_per_launcher, get_all_detected_games_with_box_art, Outcome,
};
use lib_game_detector::error::GamesParsingError;
use lib_game_detector::field_join::{Authority, FieldJoin};
use lib_game_detector::linux::launchers::itch::Itch;
use lib_game_detector::reconcile::reconcile;
use lib_game_detector::records::{
    retain_unless, FieldScanner, FieldSpec, Format, PartialRecord, RawField,
};
use lib_game_detector::scanner::{scan_records, RecordScanner};
use lib_game_detector::text::to_chars;
use lib_game_detector::utils::commands::{get_launch_command, get_launch_command_flatpak};

fn fields(record: &PartialRecord) -> Vec<(String, String)> {
    record.fields.iter().map(|f| (f.key.clone(), f.raw_value.clone())).collect()
}

fn pairs(items: &[(&str, &str)]) -> Vec<(String, String)> {
    items.iter().map(|(k, v)| (String::from(*k), String::from(*v))).collect()
}

fn record(items: &[(&str, &str)]) -> PartialRecord {
    PartialRecord {
        fields: items
            .iter()
            .map(|(k, v)| RawField { key: String::from(*k), raw_value: String::from(*v) })
            .collect(),
    }
}

fn scan(scanner: &FieldScanner, text: &str) -> Vec<PartialRecord> {
    scan_records(scanner, &to_chars(text))
}

const CATALOGUE: &str = "[{\"id\": \"1\", \"title\": \"Game A\"}, {\"id\": \"2\", \"title\": \"Game B\", \"installed\": \"false\"}]";
const INSTALL_INFO: &str = "id=1\npath=/games/a";

#[test]
fn a_catalogue_and_an_install_file_are_reconciled_on_the_id() {
    let catalogue = scan(&FieldScanner::of_keys(Format::Json, &["id", "title"]), CATALOGUE);
    assert_eq!(catalogue.len(), 2);
    assert_eq!(fields(&catalogue[0]), pairs(&[("id", "1"), ("title", "Game A")]));
    assert_eq!(fields(&catalogue[1]), pairs(&[("id", "2"), ("title", "Game B")]));
    let installs = scan(&FieldScanner::of_keys(Format::Cfg, &["id", "path"]), INSTALL_INFO);
    assert_eq!(installs.len(), 1);
    assert_eq!(fields(&installs[0]), pairs(&[("id", "1"), ("path", "/games/a")]));

    let rule = FieldJoin { key: String::from("id"), authority: Authority::Primary };
    let games = reconcile(&rule, &catalogue, &installs);
    assert_eq!(games.len(), 1);
    assert_eq!(games[0].get("id"), Some(&String::from("1")));
    assert_eq!(games[0].get("title"), Some(&String::from("Game A")));
    assert_eq!(games[0].get("path"), Some(&String::from("/games/a")));
    assert_eq!(
        fields(&games[0]),
        pairs(&[("id", "1"), ("title", "Game A"), ("path", "/games/a")])
    );
}

#[test]
fn a_game_that_is_not_installed_is_filtered_by_the_caller() {
    let scanner = FieldScanner {
        fields: vec![
            FieldSpec { key: String::from("id"), format: Format::Json, required: true },
            FieldSpec { key: String::from("title"), format: Format::Json, required: true },
            FieldSpec { key: String::from("installed"), format: Format::Json, required: false },
        ],
    };
    let catalogue = scan(&scanner, "[{\"id\": \"1\", \"title\": \"Game A\"}]");
    assert_eq!(catalogue.len(), 1);
    assert_eq!(fields(&catalogue[0]), pairs(&[("id", "1"), ("title", "Game A")]));
    let catalogue = vec![
        record(&[("id", "1"), ("title", "Game A")]),
        record(&[("id", "2"), ("title", "Game B"), ("installed", "false")]),
    ];
    let installs = scan(
        &FieldScanner::of_keys(Format::Cfg, &["id", "path"]),
        "id=1\npath=/games/a\nid=2\npath=/games/b\n",
    );
    assert_eq!(installs.len(), 2);
    let rule = FieldJoin { key: String::from("id"), authority: Authority::Primary };
    assert_eq!(reconcile(&rule, &catalogue, &installs).len(), 2);
    let installed = retain_unless(&catalogue, "installed", "false");
    assert_eq!(installed.len(), 1);
    let games = reconcile(&rule, &installed, &installs);
    assert_eq!(games.len(), 1);
    assert_eq!(
        fields(&games[0]),
        pairs(&[("id", "1"), ("title", "Game A"), ("path", "/games/a")])
    );
    assert!(!catalogue[0].has("installed", "false"));
    assert!(catalogue[1].has("installed", "false"));
}

#[test]
fn the_authoritative_side_wins_a_conflict() {
    let primary = vec![record(&[("id", "1"), ("title", "From catalogue"), ("only", "p")])];
    let secondary = vec![record(&[("title", "From install"), ("id", "1"), ("path", "/a")])];
    let by_primary = FieldJoin { key: String::from("id"), authority: Authority::Primary };
    let by_secondary = FieldJoin { key: String::from("id"), authority: Authority::Secondary };
    let games = reconcile(&by_primary, &primary, &secondary);
    assert_eq!(
        fields(&games[0]),
        pairs(&[("id", "1"), ("title", "From catalogue"), ("only", "p"), ("path", "/a")])
    );
    let games = reconcile(&by_secondary, &primary, &secondary);
    assert_eq!(
        fields(&games[0]),
        pairs(&[("title", "From install"), ("id", "1"), ("path", "/a"), ("only", "p")])
    );
    assert_eq!(games[0].get("title"), Some(&String::from("From install")));
    let swapped = reconcile(&by_primary, &secondary, &primary);
    assert_eq!(swapped[0].get("title"), Some(&String::from("From install")));
}

fn as_sorted_sets(records: &[PartialRecord]) -> Vec<Vec<(String, String)>> {
    let mut all: Vec<Vec<(String, String)>> = records
        .iter()
        .map(|r| {
            let mut f = fields(r);
            f.sort();
            f
        })
        .collect();
    all.sort();
    all
}

#[test]
fn without_conflicts_the_sides_can_be_swapped() {
    let left = vec![
        record(&[("id", "1"), ("title", "A")]),
        record(&[("id", "2"), ("title", "B")]),
        record(&[("id", "3"), ("title", "C")]),
        record(&[("title", "no id")]),
    ];
    let right = vec![
        record(&[("id", "3"), ("path", "/c"), ("title", "C")]),
        record(&[("id", "4"), ("path", "/d")]),
        record(&[("id", "1"), ("path", "/a")]),
    ];
    let rule = FieldJoin { key: String::from("id"), authority: Authority::Primary };
    let one = reconcile(&rule, &left, &right);
    let other = reconcile(&rule, &right, &left);
    assert_eq!(one.len(), 2);
    assert_eq!(one[0].get("id"), Some(&String::from("1")));
    assert_eq!(other[0].get("id"), Some(&String::from("3")));
    assert_eq!(as_sorted_sets(&one), as_sorted_sets(&other));
}

#[test]
fn the_first_match_wins_and_unmatched_records_are_dropped() {
    let primary = vec![record(&[("id", "1")]), record(&[("id", "9")]), record(&[("id", "1")])];
    let secondary = vec![
        record(&[("id", "1"), ("path", "first")]),
        record(&[("id", "1"), ("path", "second")]),
        record(&[("id", "5"), ("path", "unmatched")]),
    ];
    let rule = FieldJoin { key: String::from("id"), authority: Authority::Primary };
    let joined = reconcile(&rule, &primary, &secondary);
    assert_eq!(joined.len(), 2);
    assert_eq!(joined[0].get("path"), Some(&String::from("first")));
    assert_eq!(joined[1].get("path"), Some(&String::from("first")));
    let mut reversed = secondary;
    reversed.reverse();
    let joined = reconcile(&rule, &primary, &reversed);
    assert_eq!(joined[0].get("path"), Some(&String::from("second")));
    assert_eq!(reconcile(&rule, &primary, &Vec::new()).len(), 0);
    assert_eq!(reconcile(&rule, &Vec::new(), &reversed).len(), 0);
}

#[test]
fn every_format_is_read_record_by_record_in_file_order() {
    let json = "{\"id\": \"1\", \"name\": \"one\"}\n{\"id\": \"2\", \"name\": \"two\"}\n{\"id\": \"3\"}";
    let yaml = "id: 1\nname: one\nid: 2\nname: two\nid: 3\n";
    let cfg = "id=1\nname=one\nid=2\nname=two\nid=3\n";
    let unquoted = "\"id\": a, \"name\": one\n\"id\": b, \"name\": two\n\"id\": c";
    for (format, text, ids) in [
        (Format::Json, json, ["1", "2"]),
        (Format::Yaml, yaml, ["1", "2"]),
        (Format::Cfg, cfg, ["1", "2"]),
        (Format::JsonUnquoted, unquoted, ["a", "b"]),
    ] {
        let scanner = FieldScanner::of_keys(format, &["id", "name"]);
        let records = scan(&scanner, text);
        assert_eq!(records.len(), 2, "{format:?}");
        assert_eq!(fields(&records[0]), pairs(&[("id", ids[0]), ("name", "one")]));
        assert_eq!(fields(&records[1]), pairs(&[("id", ids[1]), ("name", "two")]));

        // One call after the other, each on what the call before left, finds the same.
        let chars = to_chars(text);
        let (first, one) = scanner.extract_next(&chars).unwrap();
        let (second, two) = scanner.extract_next(&chars[first..]).unwrap();
        assert!(scanner.extract_next(&chars[first + second..]).is_none());
        assert_eq!(fields(&one), fields(&records[0]));
        assert_eq!(fields(&two), fields(&records[1]));
        assert_eq!(scan(&scanner, "").len(), 0);
    }
}

#[test]
fn an_optional_field_may_be_missing_but_a_record_needs_a_field() {
    let scanner = FieldScanner {
        fields: vec![
            FieldSpec { key: String::from("icon"), format: Format::Yaml, required: false },
            FieldSpec { key: String::from("id"), format: Format::Yaml, required: true },
        ],
    };
    let records = scan(&scanner, "id: 1\nicon: a.png\nid: 2\n");
    assert_eq!(records.len(), 1);
    assert_eq!(fields(&records[0]), pairs(&[("icon", "a.png"), ("id", "2")]));
    let records = scan(&scanner, "id: 1\n");
    assert_eq!(fields(&records[0]), pairs(&[("id", "1")]));
    let optional_only = FieldScanner {
        fields: vec![FieldSpec { key: String::from("icon"), format: Format::Yaml, required: false }],
    };
    assert_eq!(scan(&optional_only, "id: 1\n").len(), 0);
    assert_eq!(scan(&FieldScanner { fields: Vec::new() }, "id: 1\n").len(), 0);
    let copy = records[0].duplicate();
    assert_eq!(fields(&copy), fields(&records[0]));
}

#[test]
fn launch_commands_are_built_in_order() {
    let command = get_launch_command("lutris", &["a", "b"], &[("KEY", "value"), ("OTHER", "1")]);
    assert_eq!(command.program, "lutris");
    assert_eq!(command.args, vec!["a", "b"]);
    assert_eq!(
        command.envs,
        vec![
            (String::from("KEY"), String::from("value")),
            (String::from("OTHER"), String::from("1"))
        ]
    );
    let command = get_launch_command_flatpak("org.app", &["--x"], &["run-me", "now"], &[]);
    assert_eq!(command.program, "flatpak");
    assert_eq!(command.args, vec!["--x", "run", "org.app", "run-me", "now"]);
    assert!(command.envs.is_empty());
    let copy = command.duplicate();
    assert_eq!(copy.program, command.program);
    assert_eq!(copy.args, command.args);
}

#[test]
fn errors_and_launchers_have_their_texts() {
    assert_eq!(GamesParsingError::Other(String::from("boom")).message(), "Other error: boom");
    assert_eq!(GamesParsingError::Io(String::from("denied")).message(), "denied");
    assert_eq!(GamesParsingError::Nom(String::from("key")).message(), "key");
    assert_eq!(GamesParsingError::Db(String::from("locked")).message(), "locked");
    assert_eq!(SupportedLaunchers::Steam.name(), "Steam");
    assert_eq!(SupportedLaunchers::SteamShortcuts.name(), "Steam (shortcuts)");
    assert_eq!(
        SupportedLaunchers::HeroicGamesAmazon.name(),
        "Heroic Games Launcher (Amazon Prime Gaming)"
    );
    assert_eq!(
        SupportedLaunchers::HeroicGamesEpic.name(),
        "Heroic Games Launcher (Epic Games Store)"
    );
    assert_eq!(SupportedLaunchers::HeroicGamesGOG.name(), "Heroic Games Launcher (GOG)");
    assert_eq!(SupportedLaunchers::HeroicGamesSideload.name(), "Heroic Games Launcher (Sideload)");
    assert_eq!(SupportedLaunchers::Lutris.name(), "Lutris");
    assert_eq!(SupportedLaunchers::Bottles.name(), "Bottles");
    assert_eq!(SupportedLaunchers::MinecraftPrism.name(), "Prism Launcher");
    assert_eq!(SupportedLaunchers::MinecraftAT.name(), "ATLauncher");
    assert_eq!(SupportedLaunchers::Itch.name(), "Itch");
}

#[test]
fn the_detector_lists_filters_and_picks_games() {
    let row = |title: &str| lib_game_detector::linux::launchers::itch::DbRow {
        game_title: String::from(title),
        _game_url: String::new(),
        _game_cover: String::new(),
        install_locations_base_path: String::new(),
        caves_id: String::new(),
        caves_verdict: String::from("{\"basePath\":\"/g\",\"path\":\"bin\"}"),
    };
    let mut first = Itch::get_detected_games(&vec![row("One"), row("Two")]);
    first[1].path_box_art = Some(String::from("/art/two.png"));
    let second = Itch::get_detected_games(&vec![row("Three")]);
    let third = Itch::get_detected_games(&vec![row("Four")]);
    let asked = vec![
        (SupportedLaunchers::Bottles, Outcome::NotDetected),
        (SupportedLaunchers::Itch, Outcome::Games(first)),
        (SupportedLaunchers::Steam, Outcome::Failed),
        (SupportedLaunchers::Lutris, Outcome::NotDetected),
        (SupportedLaunchers::Lutris, Outcome::Games(second)),
        (SupportedLaunchers::MinecraftAT, Outcome::Games(Vec::new())),
        (SupportedLaunchers::Steam, Outcome::Games(third)),
    ];
    let titles = |games: &Vec<lib_game_detector::data::Game>| {
        games.iter().map(|g| g.title.clone()).collect::<Vec<_>>()
    };
    let all = get_all_detected_games(&asked);
    assert_eq!(titles(&all), vec!["One", "Two", "Three", "Four"]);
    let with_art = get_all_detected_games_with_box_art(&all);
    assert_eq!(with_art.len(), 1);
    assert_eq!(with_art[0].title, "Two");
    assert_eq!(with_art[0].path_box_art, Some(String::from("/art/two.png")));

    let per_launcher = get_all_detected_games_per_launcher(&asked);
    assert_eq!(
        per_launcher.iter().map(|(launcher, games)| (*launcher, titles(games))).collect::<Vec<_>>(),
        vec![
            (SupportedLaunchers::Itch, vec![String::from("One"), String::from("Two")]),
            (SupportedLaunchers::Lutris, vec![String::from("Three")]),
            (SupportedLaunchers::MinecraftAT, Vec::new()),
            (SupportedLaunchers::Steam, vec![String::from("Four")]),
        ]
    );

    let of = |launcher| get_all_detected_games_from_specific_launcher(&asked, launcher);
    assert_eq!(of(SupportedLaunchers::Itch).map(|g| titles(&g)), Some(vec![String::from("One"), String::from("Two")]));
    // The first launcher of the kind that was detected decides, also where it failed
    assert!(of(SupportedLaunchers::Steam).is_none());
    assert_eq!(of(SupportedLaunchers::Lutris).map(|g| titles(&g)), Some(vec![String::from("Three")]));
    assert_eq!(of(SupportedLaunchers::MinecraftAT).map(|g| g.len()), Some(0));
    assert!(of(SupportedLaunchers::Bottles).is_none());
    assert!(of(SupportedLaunchers::HeroicGamesGOG).is_none());

    let none = vec![
        (SupportedLaunchers::Steam, Outcome::Failed),
        (SupportedLaunchers::Itch, Outcome::NotDetected),
    ];
    assert_eq!(get_all_detected_games(&none).len(), 0);
    assert_eq!(get_all_detected_games_per_launcher(&none).len(), 0);
    assert_eq!(get_all_detected_games(&Vec::new()).len(), 0);
}

fn written(format: Format, records: &[Vec<(String, String)>]) -> String {
    let mut text = String::new();
    for record in records {
        for (key, value) in record {
            let line = match format {
                Format::Cfg => format!("{key}={value}\n"),
                Format::Yaml => format!("{key}: {value}\n"),
                Format::Json => format!("\"{key}\": \"{value}\"\n"),
                Format::JsonUnquoted => format!("\"{key}\": {value}\n"),
            };
            text.push_str(&line);
        }
    }
    text
}

fn read_back(format: Format, keys: &[&str], text: &str) -> Vec<Vec<(String, String)>> {
    scan(&FieldScanner::of_keys(format, keys), text).iter().map(fields).collect()
}

#[test]
fn lines_that_were_written_are_read_back() {
    let keys = ["id", "path", "note"];
    let cfg = vec![
        pairs(&[("id", "1"), ("path", "/games/a"), ("note", "")]),
        pairs(&[("id", "2"), ("path", "id=3 is not a key here"), ("note", "a=b=c")]),
        pairs(&[("id", ""), ("path", " spaced out "), ("note", "\u{e9}t\u{e9}")]),
    ];
    let yaml = vec![
        pairs(&[("id", "1"), ("path", "/games: here"), ("note", "")]),
        pairs(&[("id", "2"), ("path", "id: 3 is not a key here"), ("note", "9 lives ")]),
    ];
    let json = vec![
        pairs(&[("id", "1"), ("path", "/games/a"), ("note", "two\nlines")]),
        pairs(&[("id", " "), ("path", "\"id\": is no key here".replace('"', "'").as_str()), ("note", "{}")]),
    ];
    let unquoted = vec![
        pairs(&[("id", "a1"), ("path", "true"), ("note", "123")]),
        pairs(&[("id", "B"), ("path", "id"), ("note", "null")]),
    ];
    for (format, records) in [
        (Format::Cfg, cfg),
        (Format::Yaml, yaml),
        (Format::Json, json),
        (Format::JsonUnquoted, unquoted),
    ] {
        let text = written(format, &records);
        assert_eq!(read_back(format, &keys, &text), records, "{format:?}");
        assert_eq!(read_back(format, &keys, &format!("\n{text}")), records, "{format:?} led");
        assert_eq!(read_back(format, &keys, "\n").len(), 0);
    }
}
