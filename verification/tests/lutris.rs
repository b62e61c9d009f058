use lib_game_detector::data::SupportedLaunchers;
use lib_game_detector::linux::launchers::lutris::{
    derive_title_from_slug, DirsFound, Found, Lutris, ParsableDataCombined,
};

#[test]
fn the_title_is_derived_from_the_slug() {
    assert_eq!(derive_title_from_slug("sky-factory"), "Sky factory");
    assert_eq!(derive_title_from_slug("warcraft-iii-reforged"), "Warcraft iii reforged");
    assert_eq!(derive_title_from_slug("Osu"), "Osu");
    assert_eq!(derive_title_from_slug("-dash"), " dash");
    assert_eq!(derive_title_from_slug("\u{e9}t\u{e9}-game"), "\u{e9}t\u{e9} game");
    assert_eq!(derive_title_from_slug("9-lives"), "9 lives");
    assert_eq!(derive_title_from_slug(""), "");
}

#[test]
fn a_game_file_with_all_fields_is_read() {
    let content = "\
game:
  exe: /home/user/Games/gog-galaxy/drive_c/GalaxyClient.exe
  prefix: /home/user/Games/gog-galaxy
game_slug: gog-galaxy
name: GOG Galaxy
slug: gog-galaxy-standard
";
    let game = Lutris::get_parsable_game_yml_data(content, "gog-galaxy-1700000000.yml").unwrap();
    assert_eq!(game.executable_name, "GalaxyClient.exe");
    assert_eq!(game.game_slug, Some(String::from("gog-galaxy")));
    assert_eq!(game.title, "GOG Galaxy");
    assert_eq!(game.slug, "gog-galaxy-standard");
}

#[test]
fn a_game_file_without_a_title_gets_its_title_from_the_slug() {
    let content = "game:\n  exe: /games/sky/factory.sh\nslug: sky-factory\n";
    let game = Lutris::get_parsable_game_yml_data(content, "sky-factory-12.yml").unwrap();
    assert_eq!(game.title, "Sky factory");
    assert_eq!(game.slug, "sky-factory");
    assert_eq!(game.game_slug, None);
    assert_eq!(game.executable_name, "factory.sh");
}

#[test]
fn a_game_file_with_only_the_executable_gets_its_slug_from_the_file_name() {
    let content = "game:\n  exe: /games/peggle/Peggle.exe\n";
    let game = Lutris::get_parsable_game_yml_data(content, "peggle-deluxe-1234.yml").unwrap();
    assert_eq!(game.slug, "peggle-deluxe");
    assert_eq!(game.title, "Peggle deluxe");
    assert_eq!(game.executable_name, "Peggle.exe");
    assert!(Lutris::get_parsable_game_yml_data(content, "nohyphen.yml").is_none());
    assert!(Lutris::get_parsable_game_yml_data("name: No Exe\nslug: x\n", "x-1.yml").is_none());
    assert!(Lutris::get_parsable_game_yml_data("", "x-1.yml").is_none());
}

#[test]
fn an_executable_split_over_lines_is_joined_with_single_spaces() {
    let split = "game:\n  exe: /games/My\n    Long   \n\tGame/run me.exe\n  prefix: /games\nslug: my-game\n";
    let single = "game:\n  exe: /games/My Long Game/run me.exe\n  prefix: /games\nslug: my-game\n";
    let from_split = Lutris::get_parsable_game_yml_data(split, "a-1.yml").unwrap();
    let from_single = Lutris::get_parsable_game_yml_data(single, "a-1.yml").unwrap();
    assert_eq!(from_split.executable_name, "run me.exe");
    assert_eq!(from_split.executable_name, from_single.executable_name);
}

#[test]
fn an_executable_without_a_slash_is_the_value_of_the_key() {
    let content = "game:\n  exe: game.exe\nslug: some-game\n";
    let game = Lutris::get_parsable_game_yml_data(content, "a-1.yml").unwrap();
    assert_eq!(game.executable_name, "game.exe");
    let at_end = "slug: some-game\ngame:\n  exe: last.exe";
    let game = Lutris::get_parsable_game_yml_data(at_end, "from-name-1.yml").unwrap();
    assert_eq!(game.executable_name, "last.exe");
    assert_eq!(game.slug, "from-name");
}

#[test]
fn game_paths_are_sorted_by_run_id_and_repeated_run_ids_are_dropped() {
    let lines = vec![
        String::from("{"),
        String::from("  \"30\": \"/games/osu/osu!.exe\","),
        String::from("  \"4\": \"/games/gog/GalaxyClient.exe\","),
        String::from("  \"12\": \"/games/epic/EpicGamesLauncher.exe\","),
        String::from("  \"4\": \"/elsewhere/Other.exe\","),
        String::from("  \"7\": \"no slash here\","),
        String::from("  \"12\": \"/games/epic/EpicGamesLauncher.exe\""),
        String::from("}"),
    ];
    let paths = Lutris::parse_game_paths_json(&lines);
    assert_eq!(paths.len(), 3);
    assert_eq!(paths[0].run_id, "12");
    assert_eq!(paths[0].game_dir, "/games/epic");
    assert_eq!(paths[0].executable_name, "EpicGamesLauncher.exe");
    assert_eq!(paths[1].run_id, "30");
    assert_eq!(paths[1].executable_name, "osu!.exe");
    assert_eq!(paths[2].run_id, "4");
    assert_eq!(paths[2].game_dir, "/games/gog");
    assert_eq!(paths[2].executable_name, "GalaxyClient.exe");
    assert_eq!(Lutris::parse_game_paths_json(&Vec::new()).len(), 0);
}

#[test]
fn lutris_games_are_joined_by_the_name_of_their_executable() {
    let lines = vec![
        String::from("  \"2\": \"/games/gog/GalaxyClient.exe\","),
        String::from("  \"1\": \"/games/unknown/Unknown.exe\","),
        String::from("  \"3\": \"/games/sky/factory.sh\","),
    ];
    let files = vec![
        (
            String::from("sky-factory-12.yml"),
            String::from("game:\n  exe: /games/sky/factory.sh\nslug: sky-factory\n"),
        ),
        (String::from("broken-1.yml"), String::from("nothing of use")),
        (
            String::from("gog-galaxy-3.yml"),
            String::from("game:\n  exe: /any/where/GalaxyClient.exe\nname: GOG Galaxy\nslug: gog\n"),
        ),
        (
            String::from("gog-galaxy-4.yml"),
            String::from("game:\n  exe: /later/GalaxyClient.exe\nname: Second\nslug: gog2\n"),
        ),
    ];
    assert_eq!(Lutris::parse_games_dir(&files).len(), 3);
    let games = Lutris::parse_game_data(&lines, &files);
    assert_eq!(games.len(), 2);
    assert_eq!(games[0].run_id, "2");
    assert_eq!(games[0].title, "GOG Galaxy");
    assert_eq!(games[0].game_dir, "/games/gog");
    assert_eq!(games[0].slug, "gog");
    assert_eq!(games[1].run_id, "3");
    assert_eq!(games[1].title, "Sky factory");
    assert_eq!(games[1].game_dir, "/games/sky");
}

#[test]
fn lutris_is_located_by_what_exists() {
    let all = DirsFound { config: true, cache: true, data: true, games: true, box_art: true };
    let native = Lutris::located("/h", "/h/.config", "/h/.cache", "/h/.local/share", all);
    assert!(!native.is_using_flatpak);
    assert_eq!(native.path_games_dir, "/h/.config/lutris/games");
    assert_eq!(native.path_box_art_dir, "/h/.cache/lutris/coverart");
    assert_eq!(native.path_game_paths_json, "/h/.cache/lutris/game-paths.json");

    let fallback = DirsFound { config: false, cache: true, data: true, games: false, box_art: false };
    let launcher = Lutris::located("/h", "/h/.config", "/h/.cache", "/h/.local/share", fallback);
    assert!(!launcher.is_using_flatpak);
    assert_eq!(launcher.path_games_dir, "/h/.local/share/lutris/games");
    assert_eq!(launcher.path_box_art_dir, "/h/.local/share/lutris/coverart");
    assert_eq!(launcher.path_game_paths_json, "/h/.cache/lutris/game-paths.json");

    let none = DirsFound { config: false, cache: false, data: true, games: true, box_art: true };
    let flatpak = Lutris::located("/h", "/h/.config", "/h/.cache", "/h/.local/share", none);
    assert!(flatpak.is_using_flatpak);
    assert_eq!(flatpak.path_games_dir, "/h/.var/app/net.lutris.Lutris/data/lutris/games");
    assert_eq!(flatpak.path_box_art_dir, "/h/.var/app/net.lutris.Lutris/data/lutris/coverart");
    assert_eq!(
        flatpak.path_game_paths_json,
        "/h/.var/app/net.lutris.Lutris/cache/lutris/game-paths.json"
    );

    let config_only = DirsFound { config: true, cache: false, data: false, games: true, box_art: true };
    assert!(!Lutris::located("/h", "/c", "/k", "/d", config_only).is_using_flatpak);

    let missing = Lutris::new("/does/not/exist", "/no/config", "/no/cache", "/no/data");
    assert!(missing.is_using_flatpak);
    assert_eq!(missing.path_games_dir, "/no/data/lutris/games");
    assert_eq!(missing.path_box_art_dir, "/no/data/lutris/coverart");
    assert!(!missing.is_detected());
    assert_eq!(missing.get_launcher_type(), SupportedLaunchers::Lutris);
}

fn record() -> ParsableDataCombined {
    ParsableDataCombined {
        game_dir: String::from("/games/gog"),
        run_id: String::from("42"),
        title: String::from("GOG Galaxy\u{ae}"),
        game_slug: Some(String::from("gog-galaxy")),
        slug: String::from("gog"),
    }
}

#[test]
fn a_lutris_game_is_built_from_what_was_found() {
    let all = DirsFound { config: true, cache: true, data: true, games: true, box_art: true };
    let launcher = Lutris::located("/h", "/c", "/k", "/d", all);
    let game = launcher.game_from(
        &record(),
        Found {
            game_slug_images: (false, true, true),
            slug_images: (true, false, false),
            game_dir: true,
        },
    );
    assert_eq!(game.title, "GOG Galaxy");
    assert_eq!(game.source, SupportedLaunchers::Lutris);
    assert_eq!(game.path_box_art, Some(String::from("/k/lutris/coverart/gog-galaxy.jpg")));
    assert_eq!(game.path_game_dir, Some(String::from("/games/gog")));
    assert_eq!(game.path_icon, None);
    assert_eq!(game.launch_command.program, "lutris");
    assert_eq!(game.launch_command.args, vec!["lutris:rungameid/42"]);
    assert_eq!(
        game.launch_command.envs,
        vec![(String::from("LUTRIS_SKIP_INIT"), String::from("1"))]
    );

    let game = launcher.game_from(
        &record(),
        Found {
            game_slug_images: (false, false, false),
            slug_images: (false, false, true),
            game_dir: false,
        },
    );
    assert_eq!(game.path_box_art, Some(String::from("/k/lutris/coverart/gog.jpeg")));
    assert_eq!(game.path_game_dir, None);

    let none = DirsFound { config: false, cache: false, data: false, games: true, box_art: true };
    let flatpak = Lutris::located("/h", "/c", "/k", "/d", none);
    let game = flatpak.game_from(
        &record(),
        Found {
            game_slug_images: (false, false, false),
            slug_images: (false, false, false),
            game_dir: false,
        },
    );
    assert_eq!(game.path_box_art, None);
    assert_eq!(game.launch_command.program, "flatpak");
    assert_eq!(
        game.launch_command.args,
        vec!["run", "net.lutris.Lutris", "lutris:rungameid/42"]
    );
    let games = launcher.get_detected_games(&vec![record()]);
    assert_eq!(games.len(), 1);
    assert_eq!(games[0].title, "GOG Galaxy");
    assert_eq!(games[0].path_box_art, None);
}

#[test]
fn a_record_without_game_slug_has_no_image_under_that_name() {
    let all = DirsFound { config: true, cache: true, data: true, games: true, box_art: true };
    let launcher = Lutris::located("/h", "/c", "/k", "/d", all);
    let mut data = record();
    data.game_slug = None;
    data.game_dir = String::from("/");
    let found = launcher.look_for(&data);
    assert_eq!(found.game_slug_images, (false, false, false));
    assert_eq!(found.slug_images, (false, false, false));
    assert!(found.game_dir);
}
