use lib_game_detector::data::SupportedLaunchers;
use lib_game_detector::linux::launchers::bottles::{
    Bottles, BottleYmlScanner, Found, LibraryScanner, ParsableDataCombined,
};
use lib_game_detector::scanner::{scan_records, RecordScanner};
use lib_game_detector::text::to_chars;

const LIBRARY: &str = "\
a1b2:
  bottle:
    name: Gaming
    path: Gaming-Bottle
  icon: /home/user/.local/share/icons/warcraft.png
  id: '1234'
  name: Warcraft III\u{2122}
  thumbnail: grid:warcraft.jpg
c3d4:
  bottle:
    name: Apps
    path: Apps
  icon: com.usebottles.bottles-program
  id: '5678'
  name: GOG Galaxy
  thumbnail: null
";

const BOTTLE: &str = "\
External_Programs:
  abcd:
    arguments: ''
    executable: Warcraft III.exe
    folder: /home/user/Games/Warcraft
      III/x86_64
    id: '1234'
    name: Warcraft III
  efgh:
    executable: GalaxyClient.exe
    folder: /home/user/Games/GOG Galaxy
    id: '5678'
    name: GOG Galaxy
Versioning: false
";

#[test]
fn library_records_are_read_in_file_order() {
    let games = Bottles::parse_bottles_library(LIBRARY);
    assert_eq!(games.len(), 2);
    assert_eq!(games[0].bottle_name, "Gaming");
    assert_eq!(games[0].bottle_subdir, "Gaming-Bottle");
    assert_eq!(games[0].icon, "/home/user/.local/share/icons/warcraft.png");
    assert_eq!(games[0].id, "'1234'");
    assert_eq!(games[0].title, "Warcraft III\u{2122}");
    assert_eq!(games[0].box_art, Some(String::from("warcraft.jpg")));
    assert_eq!(games[1].bottle_name, "Apps");
    assert_eq!(games[1].bottle_subdir, "Apps");
    assert_eq!(games[1].icon, "com.usebottles.bottles-program");
    assert_eq!(games[1].id, "'5678'");
    assert_eq!(games[1].title, "GOG Galaxy");
    assert_eq!(games[1].box_art, None);
}

#[test]
fn an_icon_split_over_two_lines_is_joined_with_one_space() {
    let library = "\
  bottle:
    name: Gaming
    path: Gaming
  icon: /home/user/My
    Icons/game.png
  id: 1
  name: Game
  thumbnail: grid:game.png
";
    let games = Bottles::parse_bottles_library(library);
    assert_eq!(games.len(), 1);
    assert_eq!(games[0].icon, "/home/user/My Icons/game.png");
    assert_eq!(games[0].id, "1");
}

#[test]
fn a_library_entry_without_thumbnail_ends_the_records() {
    let library = "\
  bottle:
    name: Gaming
    path: Gaming
  icon: a
  id: 1
  name: Game
";
    assert_eq!(Bottles::parse_bottles_library(library).len(), 0);
    assert_eq!(Bottles::parse_bottles_library("").len(), 0);
    assert_eq!(Bottles::parse_bottles_library("name: only a name").len(), 0);
}

#[test]
fn bottle_programs_are_read_with_their_continued_folders() {
    let programs = Bottles::get_parsable_bottle_yml_data(BOTTLE);
    assert_eq!(programs.len(), 2);
    assert_eq!(programs[0].game_dir, "/home/user/Games/Warcraft III/x86_64");
    assert_eq!(programs[0].id, "'1234'");
    assert_eq!(programs[1].game_dir, "/home/user/Games/GOG Galaxy");
    assert_eq!(programs[1].id, "'5678'");
}

#[test]
fn a_folder_split_over_lines_reads_as_the_folder_on_one_line() {
    let split = "folder: /games/a\n  very\n\tlong\n   name\nid: 7\n";
    let single = "folder: /games/a very long name\nid: 7\n";
    let from_split = Bottles::get_parsable_bottle_yml_data(split);
    let from_single = Bottles::get_parsable_bottle_yml_data(single);
    assert_eq!(from_split.len(), 1);
    assert_eq!(from_single.len(), 1);
    assert_eq!(from_split[0].game_dir, "/games/a very long name");
    assert_eq!(from_split[0].game_dir, from_single[0].game_dir);
    assert_eq!(from_split[0].id, from_single[0].id);
}

#[test]
fn a_continuation_line_with_a_colon_is_taken_for_the_next_key() {
    // The second line of the path holds a colon, so it is not read as part of the path.
    let text = "folder: /games/drive\n  c:/Program Files/game\nid: 9\n";
    let programs = Bottles::get_parsable_bottle_yml_data(text);
    assert_eq!(programs.len(), 1);
    assert_eq!(programs[0].game_dir, "/games/drive");
    assert_eq!(programs[0].id, "9");
}

#[test]
fn a_folder_at_the_end_of_the_file_is_no_program() {
    assert_eq!(Bottles::get_parsable_bottle_yml_data("folder: /games/a").len(), 0);
    assert_eq!(Bottles::get_parsable_bottle_yml_data("folder: /games/a\n").len(), 0);
    assert_eq!(
        Bottles::get_parsable_bottle_yml_data("folder: /games/a\nnot indented\nid: 1\n").len(),
        0
    );
    assert_eq!(Bottles::get_parsable_bottle_yml_data("folder: /games/a\n\nid: 1\n").len(), 0);
}

#[test]
fn one_broken_program_does_not_hide_the_programs_before_it() {
    let text = "folder: /games/a\nid: 1\nfolder: /games/b\n";
    let programs = Bottles::get_parsable_bottle_yml_data(text);
    assert_eq!(programs.len(), 1);
    assert_eq!(programs[0].game_dir, "/games/a");
}

#[test]
fn the_record_loop_goes_on_from_where_the_scanner_stopped() {
    let chars = to_chars(BOTTLE);
    let scanner = BottleYmlScanner;
    let (first_len, first) = scanner.extract_next(&chars).unwrap();
    let (second_len, second) = scanner.extract_next(&chars[first_len..]).unwrap();
    assert!(first_len > 0 && second_len > 0);
    assert!(scanner.extract_next(&chars[first_len + second_len..]).is_none());
    let all = scan_records(&scanner, &chars);
    assert_eq!(all.len(), 2);
    assert_eq!(all[0].id, first.id);
    assert_eq!(all[0].game_dir, first.game_dir);
    assert_eq!(all[1].id, second.id);
    assert_eq!(all[1].game_dir, second.game_dir);
    assert_eq!(scan_records(&LibraryScanner, &to_chars(LIBRARY)).len(), 2);
}

#[test]
fn bottles_games_are_joined_by_id_and_unmatched_games_are_dropped() {
    let other_bottle = "folder: /elsewhere\nid: '9999'\nname: x\n";
    let files = vec![String::from(other_bottle), String::from(BOTTLE)];
    let games = Bottles::parse_game_data(LIBRARY, &files);
    assert_eq!(games.len(), 2);
    assert_eq!(games[0].title, "Warcraft III\u{2122}");
    assert_eq!(games[0].game_dir, "/home/user/Games/Warcraft III/x86_64");
    assert_eq!(games[0].bottle_name, "Gaming");
    assert_eq!(games[0].bottle_subdir, "Gaming-Bottle");
    assert_eq!(games[0].box_art, Some(String::from("warcraft.jpg")));
    assert_eq!(games[0].path_icon, "/home/user/.local/share/icons/warcraft.png");
    assert_eq!(games[1].title, "GOG Galaxy");
    assert_eq!(games[1].game_dir, "/home/user/Games/GOG Galaxy");

    let only_first = vec![String::from("folder: /a\nid: '1234'\nname: x\n")];
    let games = Bottles::parse_game_data(LIBRARY, &only_first);
    assert_eq!(games.len(), 1);
    assert_eq!(games[0].game_dir, "/a");
    assert_eq!(Bottles::parse_game_data(LIBRARY, &Vec::new()).len(), 0);
}

#[test]
fn the_first_program_with_an_id_wins() {
    let files = vec![
        String::from("folder: /first\nid: '1234'\nname: x\n"),
        String::from("folder: /second\nid: '1234'\nname: x\n"),
    ];
    let games = Bottles::parse_game_data(LIBRARY, &files);
    assert_eq!(games.len(), 1);
    assert_eq!(games[0].game_dir, "/first");
}

#[test]
fn bottles_is_located_natively_or_in_the_flatpak() {
    let native = Bottles::located("/home/user", "/home/user/.local/share", true);
    assert!(!native.is_using_flatpak);
    assert_eq!(native.path_bottles_dir, "/home/user/.local/share/bottles/bottles");
    assert_eq!(native.path_bottles_library, "/home/user/.local/share/bottles/library.yml");
    let flatpak = Bottles::located("/home/user", "/home/user/.local/share", false);
    assert!(flatpak.is_using_flatpak);
    assert_eq!(
        flatpak.path_bottles_dir,
        "/home/user/.var/app/com.usebottles.bottles/data/bottles/bottles"
    );
    assert_eq!(
        flatpak.path_bottles_library,
        "/home/user/.var/app/com.usebottles.bottles/data/bottles/library.yml"
    );
    let missing = Bottles::new("/does/not/exist", "/does/not/exist/either");
    assert!(missing.is_using_flatpak);
    assert!(!missing.is_detected());
    assert_eq!(missing.get_launcher_type(), SupportedLaunchers::Bottles);
}

fn combined() -> ParsableDataCombined {
    ParsableDataCombined {
        title: String::from("Warcraft III\u{2122}"),
        path_icon: String::from("/icons/warcraft.png"),
        box_art: Some(String::from("warcraft.jpg")),
        bottle_name: String::from("Gaming"),
        bottle_subdir: String::from("Gaming-Bottle"),
        game_dir: String::from("/games/warcraft"),
    }
}

#[test]
fn a_bottles_game_is_built_from_what_was_found() {
    let launcher = Bottles::located("/home/user", "/data", true);
    let game = launcher.game_from(
        &combined(),
        Found { box_art: true, game_dir: true, icon: false },
    );
    assert_eq!(game.title, "Warcraft III");
    assert_eq!(game.source, SupportedLaunchers::Bottles);
    assert_eq!(game.path_icon, None);
    assert_eq!(
        game.path_box_art,
        Some(String::from("/data/bottles/bottles/Gaming-Bottle/grids/warcraft.jpg"))
    );
    assert_eq!(game.path_game_dir, Some(String::from("/games/warcraft")));
    assert_eq!(game.launch_command.program, "bottles-cli");
    assert_eq!(
        game.launch_command.args,
        vec!["run", "-p", "Warcraft III\u{2122}", "-b", "Gaming"]
    );
    assert!(game.launch_command.envs.is_empty());

    let flatpak = Bottles::located("/home/user", "/data", false);
    let game = flatpak.game_from(
        &combined(),
        Found { box_art: false, game_dir: false, icon: true },
    );
    assert_eq!(game.path_icon, Some(String::from("/icons/warcraft.png")));
    assert_eq!(game.path_box_art, None);
    assert_eq!(game.path_game_dir, None);
    assert_eq!(game.launch_command.program, "flatpak");
    assert_eq!(
        game.launch_command.args,
        vec![
            "--command=bottles-cli",
            "run",
            "com.usebottles.bottles",
            "run",
            "-p",
            "Warcraft III\u{2122}",
            "-b",
            "Gaming"
        ]
    );
}

#[test]
fn detected_bottles_games_keep_the_order_of_the_records() {
    let launcher = Bottles::located("/home/user", "/does/not/exist", true);
    let mut second = combined();
    second.title = String::from("Second");
    second.game_dir = String::from("/");
    let games = launcher.get_detected_games(&vec![combined(), second]);
    assert_eq!(games.len(), 2);
    assert_eq!(games[0].title, "Warcraft III");
    assert_eq!(games[0].path_game_dir, None);
    assert_eq!(games[0].path_box_art, None);
    assert_eq!(games[1].title, "Second");
    assert_eq!(games[1].path_game_dir, Some(String::from("/")));
    assert_eq!(launcher.get_detected_games(&Vec::new()).len(), 0);
}

#[test]
fn a_record_without_box_art_is_not_looked_up_on_disk() {
    let launcher = Bottles::located("/", "/", true);
    let mut record = combined();
    record.box_art = None;
    record.game_dir = String::from("/");
    record.path_icon = String::from("/does/not/exist.png");
    let found = launcher.look_for(&record);
    assert!(!found.box_art);
    assert!(found.game_dir);
    assert!(!found.icon);
}

#[test]
fn with_every_id_once_each_shared_id_gives_one_game() {
    let library = "\
  bottle:\n    name: A\n    path: a\n  icon: x\n  id: 1\n  name: One\n  thumbnail: null\n\
  bottle:\n    name: B\n    path: b\n  icon: x\n  id: 2\n  name: Two\n  thumbnail: null\n\
  bottle:\n    name: C\n    path: c\n  icon: x\n  id: 3\n  name: Three\n  thumbnail: null\n";
    let bottles = vec![
        String::from("folder: /three\nid: 3\nname: x\nfolder: /four\nid: 4\nname: x\n"),
        String::from("folder: /one\nid: 1\nname: x\n"),
    ];
    let games = Bottles::parse_game_data(library, &bottles);
    let pairs: Vec<(String, String)> =
        games.iter().map(|g| (g.title.clone(), g.game_dir.clone())).collect();
    assert_eq!(
        pairs,
        vec![
            (String::from("One"), String::from("/one")),
            (String::from("Three"), String::from("/three")),
        ]
    );
}

#[test]
fn a_whole_program_reads_the_same_split_or_on_one_line() {
    let split = "folder: /games/My\n  Long\n\t Game\n    x86\nid: 7\nname: n\nfolder: /b\nid: 8\n";
    let single = "folder: /games/My Long Game x86\nid: 7\nname: n\nfolder: /b\nid: 8\n";
    let from_split = Bottles::get_parsable_bottle_yml_data(split);
    let from_single = Bottles::get_parsable_bottle_yml_data(single);
    assert_eq!(from_split.len(), 2);
    assert_eq!(from_single.len(), 2);
    for (a, b) in from_split.iter().zip(from_single.iter()) {
        assert_eq!(a.game_dir, b.game_dir);
        assert_eq!(a.id, b.id);
    }
    assert_eq!(from_split[0].game_dir, "/games/My Long Game x86");
    assert_eq!(from_split[0].id, "7");
    assert_eq!(from_split[1].game_dir, "/b");
}
