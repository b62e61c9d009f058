use lib_game_detector::data::SupportedLaunchers;
use lib_game_detector::error::GamesParsingError;
use lib_game_detector::linux::launchers::steam::steam_base::{
    matches_manifest_filename, parse_game_manifest, parse_game_manifest_lines, Found,
    ManifestFiles, Steam, SteamLibrary,
};
use lib_game_detector::linux::launchers::steam::steam_shortcuts::{
    combine_all, decimal_text, find_last_named, find_userdata_files,
    get_parsable_screenshots_data, get_parsable_shortcuts_data, has_userdata_files,
    pick_userdata_files, NameEntryScanner,
    ParsableDataCombined, ParsableScreenshotData, ParsableShortcutData, SteamShortcuts,
    UserDataFiles,
};
use lib_game_detector::linux::launchers::steam::{
    get_steam_dir, get_steam_flatpak_dir, get_steam_launch_command,
};
use lib_game_detector::scanner::scan_records;
use lib_game_detector::text::to_chars;
use steam_shortcuts_util::{shortcuts_to_bytes, Shortcut};

#[test]
fn manifest_file_names_are_told_apart() {
    assert!(matches_manifest_filename("appmanifest_8930.acf"));
    assert!(matches_manifest_filename("appmanifest_abc123.acf"));
    assert!(matches_manifest_filename("appmanifest_.acf"));
    assert!(!matches_manifest_filename("appmanifest_8930.acf.tmp"));
    assert!(!matches_manifest_filename("appmanifest_8930.acf.1234.tmp"));
    assert!(!matches_manifest_filename("appmanifest_8930"));
    assert!(!matches_manifest_filename("appmanifest_89-30.acf"));
    assert!(!matches_manifest_filename("xappmanifest_8930.acf"));
    assert!(!matches_manifest_filename("libraryfolders.vdf"));
    assert!(!matches_manifest_filename(""));
    let names = vec![
        String::from("appmanifest_1.acf"),
        String::from("common"),
        String::from("appmanifest_2.acf.tmp"),
        String::from("appmanifest_3.acf"),
    ];
    assert_eq!(
        SteamLibrary::get_manifest_names(&names),
        vec!["appmanifest_1.acf", "appmanifest_3.acf"]
    );
}

const MANIFEST: &str = "\"AppState\"\n{\n\t\"appid\"\t\t\"8930\"\n\t\"universe\"\t\t\"1\"\n\t\"name\"\t\t\"Sid Meier's Civilization V\u{ae}\"\n\t\"StateFlags\"\t\t\"4\"\n\t\"installdir\"\t\t\"Sid Meier's Civilization V\"\n}\n";

#[test]
fn a_manifest_gives_id_title_and_directory() {
    let manifest = parse_game_manifest(MANIFEST).unwrap();
    assert_eq!(manifest.app_id, "8930");
    assert_eq!(manifest.title, "Sid Meier's Civilization V");
    assert_eq!(manifest.install_dir_path, "Sid Meier's Civilization V");
    assert!(parse_game_manifest("\"appid\" \"1\"\n\"name\" \"No Dir\"\n").is_none());
    assert!(parse_game_manifest("\"name\" \"x\"\n\"appid\" \"1\"\n\"installdir\" \"d\"").is_none());
    assert!(parse_game_manifest("").is_none());

    let lines: Vec<String> = MANIFEST.lines().map(String::from).collect();
    let by_lines = parse_game_manifest_lines(&lines).unwrap();
    assert_eq!(by_lines.app_id, "8930");
    assert_eq!(by_lines.title, "Sid Meier's Civilization V");
    assert_eq!(by_lines.install_dir_path, "Sid Meier's Civilization V");
    assert!(parse_game_manifest_lines(&lines[..4].to_vec()).is_none());
    assert!(parse_game_manifest_lines(&Vec::new()).is_none());
}

#[test]
fn steam_is_located_natively_or_in_the_flatpak() {
    assert_eq!(get_steam_dir("/home/user/.local/share"), "/home/user/.local/share/Steam");
    assert_eq!(
        get_steam_flatpak_dir("/home/user"),
        "/home/user/.var/app/com.valvesoftware.Steam/data/Steam"
    );
    let native = Steam::located("/home/user", "/data", true);
    assert_eq!(native.path_steam_dir, "/data/Steam");
    assert!(!native.is_using_flatpak);
    let flatpak = Steam::located("/home/user", "/data", false);
    assert_eq!(flatpak.path_steam_dir, "/home/user/.var/app/com.valvesoftware.Steam/data/Steam");
    assert!(flatpak.is_using_flatpak);
    let missing = Steam::new("/does/not/exist", "/nor/this");
    assert!(missing.is_using_flatpak);
    assert!(!missing.is_detected());
    assert_eq!(missing.get_launcher_type(), SupportedLaunchers::Steam);
    let command = get_steam_launch_command("8930", false);
    assert_eq!(command.program, "steam");
    assert_eq!(command.args, vec!["steam://rungameid/8930"]);
    let command = get_steam_launch_command("8930", true);
    assert_eq!(command.program, "flatpak");
    assert_eq!(
        command.args,
        vec!["run", "com.valvesoftware.Steam", "steam://rungameid/8930"]
    );
}

#[test]
fn libraries_are_the_paths_of_the_library_folders_file() {
    let steam = Steam::located("/home/user", "/data", true);
    let lines: Vec<String> = "\"libraryfolders\"\n{\n\t\"0\"\n\t{\n\t\t\"path\"\t\t\"/data/Steam\"\n\t\t\"label\"\t\t\"\"\n\t}\n\t\"1\"\n\t{\n\t\t\"path\"\t\t\"/mnt/games/SteamLibrary\"\n\t}\n}\n"
        .lines()
        .map(String::from)
        .collect();
    let libraries = steam.get_steam_libraries(&lines);
    assert_eq!(libraries.len(), 2);
    assert_eq!(libraries[0].path_library, "/data/Steam");
    assert_eq!(libraries[1].path_library, "/mnt/games/SteamLibrary");
    assert_eq!(libraries[1].path_steam_dir, "/data/Steam");
    assert!(!libraries[1].is_using_flatpak);
    assert_eq!(steam.get_steam_libraries(&Vec::new()).len(), 0);
}

fn library(number: &str) -> SteamLibrary {
    SteamLibrary {
        path_library: format!("/steam_libraries/{number}"),
        path_steam_dir: String::from("/home/user/.local/share/Steam"),
        is_using_flatpak: false,
    }
}

fn manifest(app_id: &str, title: &str) -> String {
    // The game is installed in a directory that every machine has
    format!("\"AppState\"\n{{\n\t\"appid\"\t\t\"{app_id}\"\n\t\"name\"\t\t\"{title}\"\n\t\"installdir\"\t\t\"/\"\n}}\n")
}

fn entry(dir: &str, name: &str) -> (String, String) {
    (format!("{dir}/{name}"), String::from(name))
}

fn files(app_id: &str, title: &str, entries: Vec<(String, String)>) -> ManifestFiles {
    ManifestFiles { manifest: parse_game_manifest(&manifest(app_id, title)).unwrap(), entries }
}

#[test]
fn test_steam_libraries() {
    let libraries = [library("1"), library("2")];
    let cache = "/home/user/.local/share/Steam/appcache/librarycache";
    let icon = "a4c7a8cce43d797c275aaf601d6855b90ba87769.jpg";
    let box_art = |app_id: &str| entry(&format!("{cache}/{app_id}"), "library_600x900.jpg");

    let mut games = [
        libraries[0].get_all_games(&vec![
            files(
                "2183900",
                "Warhammer 40,000: Speed Freeks",
                vec![
                    entry(&format!("{cache}/2183900"), "header.jpg"),
                    entry(&format!("{cache}/2183900"), icon),
                    box_art("2183900"),
                ],
            ),
            files(
                "8930",
                "Sid Meier's Civilization V",
                vec![box_art("8930"), entry(&format!("{cache}/8930/x"), icon)],
            ),
            files("1097150", "Unrailed!", vec![box_art("1097150")]),
            files(
                "228980",
                "Steamworks Common Redistributables",
                vec![entry(&format!("{cache}/228980"), "logo.png")],
            ),
        ]),
        libraries[1].get_all_games(&vec![
            files("1062090", "Timberborn", vec![box_art("1062090")]),
            files(
                "2767030",
                "Marvel Rivals",
                vec![entry(&format!("{cache}/2767030/abc"), "library_capsule.jpg")],
            ),
            files("105600", "Terraria", vec![box_art("105600")]),
        ]),
    ];

    assert_eq!(games[0].len(), 3);
    assert_eq!(games[1].len(), 3);

    games[0].sort_by_key(|a| a.title.clone());
    games[1].sort_by_key(|a| a.title.clone());

    assert_eq!(games[0][0].title, "Sid Meier's Civilization V");
    assert_eq!(games[0][1].title, "Unrailed!");
    assert_eq!(games[0][2].title, "Warhammer 40,000: Speed Freeks");
    assert_eq!(games[1][0].title, "Marvel Rivals");
    assert_eq!(games[1][1].title, "Terraria");
    assert_eq!(games[1][2].title, "Timberborn");

    assert!(games[0][0].path_icon.is_some());
    assert!(games[0][1].path_icon.is_none());
    assert!(games[0][2].path_icon.is_some());
    assert!(games[1][0].path_icon.is_none());
    assert!(games[1][1].path_icon.is_none());
    assert!(games[1][2].path_icon.is_none());

    assert!(games[0][2]
        .path_box_art
        .as_ref()
        .is_some_and(|p| p.ends_with("/library_600x900.jpg")));

    games.into_iter().for_each(|lib| {
        lib.into_iter().for_each(|game| {
            assert!(game.path_game_dir.is_some());
        })
    });
}

#[test]
fn the_last_image_of_each_kind_in_the_cache_stays() {
    let library = library("1");
    let entries = vec![
        entry("/cache/1/a", "library_600x900.jpg"),
        entry("/cache/1/b", "library_capsule.jpg"),
        entry("/cache/1", "a4c7a8cce43d797c275aaf601d6855b90ba87769.jpg"),
        entry("/cache/1", "b4c7a8cce43d797c275aaf601d6855b90ba87769.jpg"),
        entry("/cache/1", "too_short.jpg"),
        entry("/cache/1", "a4c7a8cce43d797c275aaf601d6855b90ba87769.png"),
    ];
    let (box_art, icon) = library.pick_images("1", true, true, &entries);
    assert_eq!(box_art, Some(String::from("/cache/1/b/library_capsule.jpg")));
    assert_eq!(icon, Some(String::from("/cache/1/b4c7a8cce43d797c275aaf601d6855b90ba87769.jpg")));
    let (box_art, icon) = library.pick_images("1", true, true, &Vec::new());
    assert_eq!(
        box_art,
        Some(String::from(
            "/home/user/.local/share/Steam/appcache/librarycache/1_library_600x900.jpg"
        ))
    );
    assert_eq!(
        icon,
        Some(String::from("/home/user/.local/share/Steam/appcache/librarycache/1_icon.jpg"))
    );
    assert_eq!(library.pick_images("1", false, false, &Vec::new()), (None, None));
    assert_eq!(library.get_images("1", &Vec::new()), (None, None));
    assert_eq!(
        library.get_cache_dir("1"),
        "/home/user/.local/share/Steam/appcache/librarycache/1"
    );
}

#[test]
fn a_steam_game_is_built_from_its_manifest() {
    let library = library("1");
    let manifest = parse_game_manifest(MANIFEST).unwrap();
    let entries = vec![entry("/cache/8930", "library_600x900.jpg")];
    let game = library
        .game_from(&manifest, Found { old_box_art: false, old_icon: false, game_dir: true }, &entries)
        .unwrap();
    assert_eq!(game.title, "Sid Meier's Civilization V");
    assert_eq!(game.source, SupportedLaunchers::Steam);
    assert_eq!(game.path_box_art, Some(String::from("/cache/8930/library_600x900.jpg")));
    assert_eq!(game.path_icon, None);
    assert_eq!(
        game.path_game_dir,
        Some(String::from("/steam_libraries/1/steamapps/common/Sid Meier's Civilization V"))
    );
    assert_eq!(game.launch_command.args, vec!["steam://rungameid/8930"]);
    assert!(library
        .game_from(
            &manifest,
            Found { old_box_art: false, old_icon: true, game_dir: true },
            &Vec::new()
        )
        .is_none());
    assert!(library.get_game(&manifest, &Vec::new()).is_none());
    let with_art = library.get_game(&manifest, &entries).unwrap();
    assert_eq!(with_art.path_game_dir, None);

    let files = vec![
        ManifestFiles { manifest: parse_game_manifest(MANIFEST).unwrap(), entries: Vec::new() },
        ManifestFiles { manifest: parse_game_manifest(MANIFEST).unwrap(), entries },
    ];
    let games = library.get_all_games(&files);
    assert_eq!(games.len(), 1);
    assert_eq!(games[0].title, "Sid Meier's Civilization V");
    let all = Steam::get_detected_games(&vec![games, Vec::new(), library.get_all_games(&files)]);
    assert_eq!(all.len(), 2);
}

#[test]
fn numbers_are_written_in_decimal() {
    for n in [0u32, 1, 9, 10, 11, 99, 100, 101, 1234567890, 4294967295, 2147483648, 3000000001] {
        assert_eq!(decimal_text(n), n.to_string());
    }
}

fn shortcuts_file() -> Vec<u8> {
    let mut first = Shortcut::new("0", "ATLauncher", "/usr/bin/atlauncher", "/usr/bin", "", "", "");
    first.app_id = 3123456789;
    let mut second = Shortcut::new("1", "Brave", "/usr/bin/brave", "/usr/bin", "", "", "");
    second.app_id = 42;
    let mut third = Shortcut::new("2", "Lutris", "/usr/bin/lutris", "/usr/bin", "", "", "");
    third.app_id = 2500000000;
    shortcuts_to_bytes(&vec![first, second, third])
}

#[test]
fn shortcuts_are_read_from_the_binary_file() {
    let shortcuts = get_parsable_shortcuts_data(&shortcuts_file()).unwrap();
    assert_eq!(shortcuts.len(), 3);
    assert_eq!(shortcuts[0].title, "ATLauncher");
    assert_eq!(shortcuts[0].box_art_id, "3123456789");
    assert_eq!(shortcuts[1].title, "Brave");
    assert_eq!(shortcuts[1].box_art_id, "42");
    assert_eq!(shortcuts[2].title, "Lutris");
    assert_eq!(shortcuts[2].box_art_id, "2500000000");
    assert_eq!(get_parsable_shortcuts_data(&shortcuts_to_bytes(&Vec::new())).unwrap().len(), 0);
}

#[test]
fn a_broken_shortcuts_file_is_an_error_of_the_other_kind() {
    match get_parsable_shortcuts_data(b"this is not a shortcuts file") {
        Err(GamesParsingError::Other(message)) => assert!(!message.is_empty()),
        other => panic!("expected an error, found {other:?}"),
    }
    let mut broken = shortcuts_file();
    let key = b"\x01Exe\x00";
    let at = broken
        .windows(key.len())
        .position(|w| w.eq_ignore_ascii_case(key))
        .expect("the file holds the key");
    broken[at] = 0x07;
    match get_parsable_shortcuts_data(&broken) {
        Err(GamesParsingError::Other(message)) => {
            assert!(message.contains("Could not parse the shortcut"), "{message}")
        }
        other => panic!("expected an error, found {other:?}"),
    }
    match SteamShortcuts::parse_combined_data("/grid", &broken, SCREENSHOTS) {
        Err(GamesParsingError::Other(_)) => {}
        other => panic!("expected an error, found {other:?}"),
    }
}

const SCREENSHOTS: &str = "\"screenshots\"\n{\n\t\"shortcutnames\"\n\t{\n\t\t\"12345\"\t\t\"Brave\"\n\t\t\"23456\"\t\t\"ATLauncher\"\n\t\t\"34567\"\t\t\"Brave\"\n\t\t\"45678\"\t\t\"Unknown\"\n\t}\n\t\"other\"\n\t{\n\t}\n}\n";

#[test]
fn the_names_of_the_shortcuts_are_read_from_their_block() {
    let names = get_parsable_screenshots_data(SCREENSHOTS).unwrap();
    assert_eq!(names.len(), 4);
    assert_eq!(names[0].app_id, "12345");
    assert_eq!(names[0].title, "Brave");
    assert_eq!(names[3].app_id, "45678");
    assert_eq!(names[3].title, "Unknown");

    let empty = get_parsable_screenshots_data("\"shortcutnames\"\n{\n}\n").unwrap();
    assert_eq!(empty.len(), 0);
    let block: Vec<char> = to_chars("\n\t\t\"1\"\t\"One\"\n\t\t\"2\"\t\"Two\"\n\t\t\"3\"");
    let lenient = scan_records(&NameEntryScanner, &block);
    assert_eq!(lenient.len(), 2);
    assert_eq!(lenient[1].title, "Two");
}

#[test]
fn a_broken_block_of_names_is_an_error_of_the_parsing_kind() {
    for text in [
        "",
        "\"screenshots\"\n{\n}\n",
        "\"shortcutnames\"",
        "\"shortcutnames\"\n{\n\t\"1\"\t\"One\"\n",
        "\"shortcutnames\"\n{\n\t\"1\"\t\"One\"\n\t\"2\"\n}\n",
        "\"shortcutnames\"\n{\n\t\"1\"\t\"\"\n}\n",
    ] {
        match get_parsable_screenshots_data(text) {
            Err(GamesParsingError::Nom(_)) => {}
            other => panic!("expected an error for {text:?}, found {other:?}"),
        }
    }
    match SteamShortcuts::parse_combined_data("/grid", &shortcuts_file(), "") {
        Err(GamesParsingError::Nom(_)) => {}
        other => panic!("expected an error, found {other:?}"),
    }
}

fn shortcut(title: &str, box_art_id: &str) -> ParsableShortcutData {
    ParsableShortcutData { title: String::from(title), box_art_id: String::from(box_art_id) }
}

fn screenshot(title: &str, app_id: &str) -> ParsableScreenshotData {
    ParsableScreenshotData { title: String::from(title), app_id: String::from(app_id) }
}

#[test]
fn a_shortcut_is_joined_with_the_last_entry_of_its_name_and_each_entry_once() {
    let shortcuts = vec![
        shortcut("Brave", "1"),
        shortcut("Missing", "2"),
        shortcut("Brave", "3"),
        shortcut("Brave", "4"),
        shortcut("", "5"),
    ];
    let screenshots = vec![
        screenshot("Brave", "old"),
        screenshot("", "nameless"),
        screenshot("Other", "other"),
        screenshot("Brave", "new"),
    ];
    assert_eq!(find_last_named(&screenshots, &String::from("Brave")), Some(3));
    assert_eq!(find_last_named(&screenshots, &String::from("Other")), Some(2));
    assert_eq!(find_last_named(&screenshots, &String::from("")), None);
    assert_eq!(find_last_named(&screenshots, &String::from("Missing")), None);
    let combined = combine_all("/does/not/exist", &shortcuts, screenshots);
    assert_eq!(combined.len(), 2);
    assert_eq!(combined[0].title, "Brave");
    assert_eq!(combined[0].app_id, "new");
    assert_eq!(combined[0].path_box_art, None);
    assert_eq!(combined[1].title, "Brave");
    assert_eq!(combined[1].app_id, "old");
}

#[test]
fn shortcuts_become_games_without_directory() {
    let combined = SteamShortcuts::parse_combined_data("/does/not/exist", &shortcuts_file(), SCREENSHOTS)
        .unwrap();
    assert_eq!(combined.len(), 2);
    assert_eq!(combined[0].title, "ATLauncher");
    assert_eq!(combined[0].app_id, "23456");
    assert_eq!(combined[1].title, "Brave");
    assert_eq!(combined[1].app_id, "34567");

    let launcher = SteamShortcuts::located("/home/user", "/data", true);
    assert_eq!(launcher.path_steam_userdata_dir, "/data/Steam/userdata");
    let games = launcher.get_detected_games(&combined);
    assert_eq!(games.len(), 2);
    assert_eq!(games[0].title, "ATLauncher");
    assert_eq!(games[0].path_game_dir, None);
    assert_eq!(games[0].path_icon, None);
    assert_eq!(games[0].source, SupportedLaunchers::SteamShortcuts);
    assert_eq!(games[0].launch_command.program, "steam");
    assert_eq!(games[0].launch_command.args, vec!["steam://rungameid/23456"]);
    let flatpak = SteamShortcuts::located("/home/user", "/data", false);
    assert_eq!(
        flatpak.path_steam_userdata_dir,
        "/home/user/.var/app/com.valvesoftware.Steam/data/Steam/userdata"
    );
    assert!(SteamShortcuts::new("/no", "/nope").is_using_flatpak);
}

#[test]
fn the_box_art_of_a_shortcut_is_looked_for_with_and_without_the_p() {
    let found = lib_game_detector::linux::launchers::steam::steam_shortcuts::Found {
        with_p: (false, false, true),
        bare: (true, true, true),
    };
    let record = ParsableDataCombined::combine_found(
        "/grid",
        &shortcut("Brave", "42"),
        &screenshot("Brave", "12345"),
        found,
    );
    assert_eq!(record.title, "Brave");
    assert_eq!(record.app_id, "12345");
    assert_eq!(record.path_box_art, Some(String::from("/grid/42p.jpeg")));
    let found = lib_game_detector::linux::launchers::steam::steam_shortcuts::Found {
        with_p: (false, false, false),
        bare: (false, true, false),
    };
    let record = ParsableDataCombined::combine_found(
        "/grid",
        &shortcut("Brave", "42"),
        &screenshot("Brave", "12345"),
        found,
    );
    assert_eq!(record.path_box_art, Some(String::from("/grid/42.jpg")));
}

#[test]
fn the_files_of_a_user_are_below_the_directory_of_the_user() {
    let files = UserDataFiles::of_user("/data/Steam/userdata/1001");
    assert_eq!(files.path_shortcuts, "/data/Steam/userdata/1001/config/shortcuts.vdf");
    assert_eq!(files.path_screenshots, "/data/Steam/userdata/1001/760/screenshots.vdf");
    assert_eq!(files.path_box_art_dir, "/data/Steam/userdata/1001/config/grid");
    assert!(find_userdata_files(&vec![String::from("/does/not/exist"), String::from("/")]).is_none());
    assert!(find_userdata_files(&Vec::new()).is_none());
}

#[test]
fn entries_that_were_written_are_read_back() {
    let written = vec![("12345", "Brave"), ("7", "Name with spaces: and {braces"), ("0", " ")];
    let mut block = String::new();
    for (app_id, title) in &written {
        block.push_str(&format!("\t\"{app_id}\"\t\t\"{title}\"\n"));
    }
    let read: Vec<(String, String)> = scan_records(&NameEntryScanner, &to_chars(&block))
        .into_iter()
        .map(|entry| (entry.app_id, entry.title))
        .collect();
    let expected: Vec<(String, String)> =
        written.iter().map(|(a, t)| (String::from(*a), String::from(*t))).collect();
    assert_eq!(read, expected);
    let led: Vec<(String, String)> =
        scan_records(&NameEntryScanner, &to_chars(&format!("\n{block}")))
            .into_iter()
            .map(|entry| (entry.app_id, entry.title))
            .collect();
    assert_eq!(led, expected);
    assert_eq!(scan_records(&NameEntryScanner, &to_chars("\n")).len(), 0);
}

#[test]
fn the_first_user_with_all_files_is_picked() {
    let users = vec![String::from("/u/1"), String::from("/u/2"), String::from("/u/3")];
    let picked = pick_userdata_files(&users, &vec![false, true, true]).unwrap();
    assert_eq!(picked.path_shortcuts, "/u/2/config/shortcuts.vdf");
    assert_eq!(picked.path_screenshots, "/u/2/760/screenshots.vdf");
    assert_eq!(picked.path_box_art_dir, "/u/2/config/grid");
    assert_eq!(
        pick_userdata_files(&users, &vec![true]).unwrap().path_box_art_dir,
        "/u/1/config/grid"
    );
    assert!(pick_userdata_files(&users, &vec![false, false, false]).is_none());
    assert!(pick_userdata_files(&users, &vec![false, false, false, true]).is_none());
    assert!(pick_userdata_files(&users, &Vec::new()).is_none());
    assert!(pick_userdata_files(&Vec::new(), &vec![true]).is_none());
    assert!(!has_userdata_files("/"));
    assert!(!has_userdata_files("/does/not/exist"));
}
