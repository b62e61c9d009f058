use lib_game_detector::data::SupportedLaunchers;
use lib_game_detector::error::GamesParsingError;
use lib_game_detector::linux::launchers::itch::{DbData, DbRow, Itch, ParsedVerdict};
use lib_game_detector::linux::launchers::minecraft::at::{
    parse_instance_config, Found as FoundAT, MinecraftAT,
};
use lib_game_detector::linux::launchers::minecraft::get_minecraft_title;
use lib_game_detector::linux::launchers::minecraft::prism::{
    get_path_icon, pick_path_icon, Found as FoundPrism, MinecraftPrism,
};

#[test]
fn test_minecraft_title() {
    assert_eq!(get_minecraft_title("abc"), "Minecraft: abc");
    assert_eq!(get_minecraft_title("012 xyz"), "Minecraft: 012 xyz");
    assert_ne!(get_minecraft_title("abc"), "abc");
    assert_eq!(get_minecraft_title(""), "Minecraft: ");
}

#[test]
fn atlauncher_instances_are_read_and_built() {
    let config = "{\n  \"id\": \"x\",\n  \"launcher\": {\n    \"name\": \"Sky Factory\",\n    \"pack\": \"SkyFactory\"\n  }\n}";
    let data = parse_instance_config(config).unwrap();
    assert_eq!(data.title, "Sky Factory");
    assert!(parse_instance_config("{\"id\": \"x\"}").is_none());

    let native = MinecraftAT::located("/home/user", "/data", true);
    assert_eq!(native.path_instances, "/data/atlauncher/instances");
    assert!(!native.is_using_flatpak);
    let flatpak = MinecraftAT::located("/home/user", "/data", false);
    assert_eq!(
        flatpak.path_instances,
        "/home/user/.var/app/com.atlauncher.ATLauncher/data/instances"
    );
    let game = native.game_from(
        "/data/atlauncher/instances/SkyFactory",
        &data,
        FoundAT { icon: (false, true, false), game_dir: true },
    );
    assert_eq!(game.title, "Minecraft: Sky Factory");
    assert_eq!(game.source, SupportedLaunchers::MinecraftAT);
    assert_eq!(
        game.path_icon,
        Some(String::from("/data/atlauncher/instances/SkyFactory/instance.jpg"))
    );
    assert_eq!(game.path_box_art, None);
    assert_eq!(
        game.path_game_dir,
        Some(String::from("/data/atlauncher/instances/SkyFactory"))
    );
    assert_eq!(game.launch_command.program, "atlauncher");
    assert_eq!(game.launch_command.args, vec!["--launch", "Sky Factory"]);
    let game = flatpak.game_from(
        "/x",
        &data,
        FoundAT { icon: (false, false, false), game_dir: false },
    );
    assert_eq!(game.path_icon, None);
    assert_eq!(game.path_game_dir, None);
    assert_eq!(game.launch_command.program, "flatpak");
    assert_eq!(
        game.launch_command.args,
        vec!["run", "com.atlauncher.ATLauncher", "--launch", "Sky Factory"]
    );

    let instances = vec![
        (String::from("/"), String::from(config)),
        (String::from("/does/not/exist"), String::from("{}")),
        (
            String::from("/does/not/exist/either"),
            String::from("\"name\": \"Fabulously Optimized\""),
        ),
    ];
    let games = native.get_detected_games(&instances);
    assert_eq!(games.len(), 2);
    assert_eq!(games[0].title, "Minecraft: Sky Factory");
    assert_eq!(games[0].path_game_dir, Some(String::from("/")));
    assert_eq!(games[1].title, "Minecraft: Fabulously Optimized");
    assert_eq!(games[1].path_game_dir, None);
    assert!(MinecraftAT::new("/no", "/nope").is_using_flatpak);
}

#[test]
fn prism_instances_are_found_through_the_configuration() {
    let native = MinecraftPrism::located("/home/user", "/data", true);
    assert_eq!(native.path_root, "/data/PrismLauncher");
    assert_eq!(native.path_config, "/data/PrismLauncher/prismlauncher.cfg");
    let flatpak = MinecraftPrism::located("/home/user", "/data", false);
    assert_eq!(
        flatpak.path_root,
        "/home/user/.var/app/org.prismlauncher.PrismLauncher/data/PrismLauncher"
    );
    assert!(flatpak.is_using_flatpak);

    let relative = native.parse_prism_config("[General]\nInstanceDir=instances\nLanguage=en\n").unwrap();
    assert_eq!(relative.path_instances, "/data/PrismLauncher/instances");
    let absolute = native.parse_prism_config("InstanceDir=/mnt/minecraft\n").unwrap();
    assert_eq!(absolute.path_instances, "/mnt/minecraft");
    match native.parse_prism_config("[General]\nLanguage=en\n") {
        Err(GamesParsingError::Nom(key)) => assert_eq!(key, "InstanceDir"),
        other => panic!("expected an error, found {other:?}"),
    }

    let game = native.game_from(
        "/mnt/minecraft",
        "All The Forge 10",
        FoundPrism { game_dir: true, icons: (false, true, true) },
    );
    assert_eq!(game.title, "Minecraft: All The Forge 10");
    assert_eq!(game.source, SupportedLaunchers::MinecraftPrism);
    assert_eq!(game.path_game_dir, Some(String::from("/mnt/minecraft/All The Forge 10")));
    assert_eq!(
        game.path_icon,
        Some(String::from("/mnt/minecraft/All The Forge 10/minecraft/icon.png"))
    );
    assert_eq!(game.launch_command.program, "prismlauncher");
    assert_eq!(game.launch_command.args, vec!["--launch", "All The Forge 10"]);
    let game = flatpak.game_from(
        "/mnt/minecraft",
        "1.20.6",
        FoundPrism { game_dir: false, icons: (true, true, true) },
    );
    assert_eq!(game.path_game_dir, None);
    assert_eq!(game.path_icon, None);
    assert_eq!(
        game.launch_command.args,
        vec!["run", "org.prismlauncher.PrismLauncher", "--launch", "1.20.6"]
    );

    assert_eq!(pick_path_icon("/i", (true, true, true)), Some(String::from("/i/icon.png")));
    assert_eq!(
        pick_path_icon("/i", (false, false, true)),
        Some(String::from("/i/.minecraft/icon.png"))
    );
    assert_eq!(pick_path_icon("/i", (false, false, false)), None);
    assert_eq!(get_path_icon(None), None);
    assert_eq!(get_path_icon(Some(&String::from("/does/not/exist"))), None);
    assert!(!MinecraftPrism::is_instance("/does/not/exist", "x"));
    let games = native.get_detected_games("/", &vec![String::from("tmp"), String::from("nothing here")]);
    assert_eq!(games.len(), 2);
    assert_eq!(games[0].path_game_dir, Some(String::from("/tmp")));
    assert_eq!(games[1].path_game_dir, None);
    assert!(MinecraftPrism::new("/no", "/nope").is_using_flatpak);
}

fn verdict(text: &str) -> (String, String, Option<String>) {
    let parsed = ParsedVerdict::from_verdict_str(text).unwrap();
    (parsed.game_dir, parsed.bin, parsed.interpreter)
}

#[test]
fn parse_verdict_str() {
    assert_eq!(
        verdict("{\"basePath\":\"/media/main/Games/ultrakill-prelude\",\"totalSize\":189548486,\"candidates\":[{\"path\":\"Linux Test Build.x86_64\",\"depth\":1,\"flavor\":\"linux\",\"arch\":\"amd64\",\"size\":29327440}]}"),
        (
            String::from("/media/main/Games/ultrakill-prelude"),
            String::from("Linux Test Build.x86_64"),
            None
        )
    );
    assert_eq!(
        verdict("{\"basePath\":\"/media/main/Games/aottg2\",\"totalSize\":2403829342,\"candidates\":[{\"path\":\"Aottg2Linux/Aottg2Linux.x86_64\",\"depth\":2,\"flavor\":\"linux\",\"arch\":\"amd64\",\"size\":14720}]}"),
        (
            String::from("/media/main/Games/aottg2"),
            String::from("Aottg2Linux/Aottg2Linux.x86_64"),
            None
        )
    );
    assert_eq!(
        verdict("{\"basePath\":\"/home/alex/.local/share/itch/burrows\",\"totalSize\":1172312431,\"candidates\":[{\"path\":\"Burrows-0.17-pc/Burrows.sh\",\"depth\":2,\"flavor\":\"script\",\"size\":1663,\"scriptInfo\":{\"interpreter\":\"/bin/sh\"}}]}"),
        (
            String::from("/home/alex/.local/share/itch/burrows"),
            String::from("Burrows-0.17-pc/Burrows.sh"),
            Some(String::from("/bin/sh"))
        )
    );
    assert_eq!(
        verdict("{\"basePath\":\"/home/alex/.local/share/itch/lautomne\",\"totalSize\":1063024341,\"candidates\":[{\"path\":\"lautomne-.4-pc/lautomne.sh\",\"depth\":2,\"flavor\":\"script\",\"size\":1660,\"scriptInfo\":{\"interpreter\":\"/bin/sh\"}}]}"),
        (
            String::from("/home/alex/.local/share/itch/lautomne"),
            String::from("lautomne-.4-pc/lautomne.sh"),
            Some(String::from("/bin/sh"))
        )
    );
    assert!(ParsedVerdict::from_verdict_str("{\"basePath\":\"/x\"}").is_none());
    assert!(ParsedVerdict::from_verdict_str("{\"path\":\"x\"}").is_none());
    assert!(ParsedVerdict::from_verdict_str("").is_none());
}

fn row(title: &str, verdict: &str) -> DbRow {
    DbRow {
        game_title: String::from(title),
        _game_url: String::from("https://example.itch.io/game"),
        _game_cover: String::new(),
        install_locations_base_path: String::from("/home/alex/.local/share/itch"),
        caves_id: String::from("cave"),
        caves_verdict: String::from(verdict),
    }
}

#[test]
fn itch_games_are_built_from_the_rows_of_the_database() {
    let rows = vec![
        row(
            "ULTRAKILL\u{2122} Prelude",
            "{\"basePath\":\"/games/ultrakill\",\"candidates\":[{\"path\":\"Linux Test Build.x86_64\"}]}",
        ),
        row("Broken", "{\"totalSize\": 1}"),
        row(
            "Burrows",
            "{\"basePath\":\"/games/burrows\",\"candidates\":[{\"path\":\"pc/Burrows.sh\",\"scriptInfo\":{\"interpreter\":\"/bin/sh\"}}]}",
        ),
    ];
    let data = DbData::from_db_row(&rows[0]).unwrap();
    assert_eq!(data.title, "ULTRAKILL Prelude");
    assert_eq!(data.path_game_dir, "/games/ultrakill");
    assert_eq!(data.path_bin, "/games/ultrakill/Linux Test Build.x86_64");
    assert_eq!(data.interpreter, None);
    match DbData::from_db_row(&rows[1]) {
        Err(GamesParsingError::Nom(_)) => {}
        other => panic!("expected an error, found {other:?}"),
    }
    let games = Itch::get_detected_games(&rows);
    assert_eq!(games.len(), 2);
    assert_eq!(games[0].title, "ULTRAKILL Prelude");
    assert_eq!(games[0].source, SupportedLaunchers::Itch);
    assert_eq!(games[0].path_game_dir, Some(String::from("/games/ultrakill")));
    assert_eq!(games[0].path_icon, None);
    assert_eq!(games[0].path_box_art, None);
    assert_eq!(games[0].launch_command.program, "/games/ultrakill/Linux Test Build.x86_64");
    assert!(games[0].launch_command.args.is_empty());
    assert_eq!(games[1].title, "Burrows");
    assert_eq!(games[1].launch_command.program, "/bin/sh");
    assert_eq!(games[1].launch_command.args, vec!["/games/burrows/pc/Burrows.sh"]);
    assert_eq!(Itch::get_detected_games(&Vec::new()).len(), 0);
}

#[test]
fn itch_is_located_natively_or_in_the_flatpak() {
    let native = Itch::located("/home/user", "/home/user/.config", true);
    assert_eq!(native.path_butler_db, "/home/user/.config/itch/db/butler.db");
    assert!(!native.is_using_flatpak);
    let flatpak = Itch::located("/home/user", "/home/user/.config", false);
    assert_eq!(
        flatpak.path_butler_db,
        "/home/user/.var/app/io.itch.itch/config/itch/db/butler.db"
    );
    let missing = Itch::new("/no", "/nope");
    assert!(missing.is_using_flatpak);
    assert!(!missing.is_detected());
    assert_eq!(missing.get_launcher_type(), SupportedLaunchers::Itch);
}
