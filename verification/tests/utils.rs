use lib_game_detector::utils::paths::{
    candidates_of, first_found, get_existing_image_path, join_path, path_is_absolute,
    pick_image_path, probe, probe_until_found, resolve, some_if_dir, some_if_file, PathKind,
};
use lib_game_detector::utils::strings::clean_game_title;
use std::path::{Path, PathBuf};

#[test]
fn test_clean_game_title() {
    assert_eq!(clean_game_title("Soon\u{2122}"), String::from("Soon"));
    assert_eq!(clean_game_title("Game\u{ae}"), String::from("Game"));
    assert_eq!(
        clean_game_title("\u{ae}T\u{2122}i\u{ae}t\u{2122}l\u{ae}e\u{2122}"),
        String::from("Title")
    );
    assert_eq!(clean_game_title(""), String::new());
    assert_eq!(clean_game_title("Plain title: 2"), String::from("Plain title: 2"));
}

#[test]
fn utils_test_get_existing_image_path() {
    let base = PathBuf::new();
    assert_eq!(
        get_existing_image_path(base.to_str().unwrap(), "does_not_exist.jpg"),
        None
    );
}

#[test]
fn paths_test_get_existing_image_path() {
    let base = PathBuf::new();
    assert_eq!(
        get_existing_image_path(base.to_str().unwrap(), "does_not_exist.jpg"),
        None
    );
}

#[test]
fn join_path_agrees_with_the_standard_library() {
    let bases = ["", "/", "/home/user", "/home/user/", "relative", "relative/dir/", "a//b", "."];
    let rels = ["", "file", "dir/file.png", "/absolute", "/", ".hidden", "with space/x", "a/"];
    for base in bases {
        for rel in rels {
            let expected = Path::new(base).join(rel);
            assert_eq!(
                join_path(base, rel),
                expected.to_str().unwrap(),
                "join of {base:?} and {rel:?}"
            );
            assert_eq!(path_is_absolute(rel), Path::new(rel).is_absolute());
        }
    }
}

#[test]
fn join_path_exact_values() {
    assert_eq!(join_path("/home/user", "games"), "/home/user/games");
    assert_eq!(join_path("/home/user/", "games"), "/home/user/games");
    assert_eq!(join_path("/home/user", "/opt/games"), "/opt/games");
    assert_eq!(join_path("", "games"), "games");
    assert_eq!(join_path("/home/user", ""), "/home/user/");
}

#[test]
fn some_if_file_and_dir_keep_the_path_or_nothing() {
    assert_eq!(some_if_dir(String::from("/")), Some(String::from("/")));
    assert_eq!(some_if_file(String::from("/")), None);
    assert_eq!(some_if_dir(String::from("/does/not/exist")), None);
    assert_eq!(some_if_file(String::from("/does/not/exist")), None);
    assert!(probe("/", PathKind::Dir));
    assert!(probe("/", PathKind::Any));
    assert!(!probe("/", PathKind::File));
    assert!(!probe("/does/not/exist", PathKind::Any));
}

#[test]
fn resolve_returns_the_first_existing_candidate() {
    let candidates = vec![String::from("/does/not/exist"), String::from("/tmp")];
    assert_eq!(resolve(&candidates, "", PathKind::Dir), Some(String::from("/tmp/")));
    assert_eq!(resolve(&candidates, "", PathKind::Any), Some(String::from("/tmp/")));
    assert_eq!(resolve(&candidates, "", PathKind::File), None);
    let roots = vec![String::from("/does/not/exist"), String::from("/")];
    assert_eq!(resolve(&roots, "tmp", PathKind::Dir), Some(String::from("/tmp")));
    let both = vec![String::from("/"), String::from("/tmp")];
    assert_eq!(resolve(&both, "", PathKind::Dir), Some(String::from("/")));
}

#[test]
fn resolve_returns_nothing_when_no_candidate_exists() {
    let candidates = vec![String::from("/does/not/exist"), String::from("/nor/does/this")];
    assert_eq!(resolve(&candidates, "", PathKind::Dir), None);
    assert_eq!(resolve(&candidates, "file", PathKind::Any), None);
    assert_eq!(resolve(&Vec::new(), "file", PathKind::Any), None);
}

#[test]
fn first_found_picks_the_first_flagged_path() {
    let paths = vec![String::from("/does/not/exist"), String::from("/tmp/fixture_dir")];
    assert_eq!(
        first_found(&paths, &vec![false, true]),
        Some(String::from("/tmp/fixture_dir"))
    );
    assert_eq!(
        first_found(&paths, &vec![true, true]),
        Some(String::from("/does/not/exist"))
    );
    assert_eq!(first_found(&paths, &vec![false, false]), None);
    assert_eq!(first_found(&paths, &vec![false]), None);
    assert_eq!(first_found(&paths, &vec![]), None);
}

#[test]
fn pick_image_path_prefers_png_then_jpg_then_jpeg() {
    assert_eq!(
        pick_image_path("/art", "cover", true, true, true),
        Some(String::from("/art/cover.png"))
    );
    assert_eq!(
        pick_image_path("/art", "cover", false, true, true),
        Some(String::from("/art/cover.jpg"))
    );
    assert_eq!(
        pick_image_path("/art", "cover", false, false, true),
        Some(String::from("/art/cover.jpeg"))
    );
    assert_eq!(pick_image_path("/art", "cover", false, false, false), None);
}

#[test]
fn candidates_are_asked_for_until_one_is_found() {
    let roots = vec![String::from("/does/not/exist"), String::from("/"), String::from("/nor/this")];
    let paths = candidates_of(&roots, "tmp");
    assert_eq!(paths, vec!["/does/not/exist/tmp", "/tmp", "/nor/this/tmp"]);
    assert_eq!(probe_until_found(&paths, PathKind::Dir), vec![false, true]);
    assert_eq!(probe_until_found(&paths, PathKind::File), vec![false, false, false]);
    assert_eq!(probe_until_found(&Vec::new(), PathKind::Any), Vec::<bool>::new());
    assert_eq!(first_found(&paths, &vec![false, false, true]), Some(String::from("/nor/this/tmp")));
}
