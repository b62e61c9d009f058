//! The library file of Amazon Prime Gaming, read line by line: the form for
//! files that keep each field on a line of its own.

use vstd::prelude::*;
use crate::linux::launchers::heroic::{LibraryRecord, ParsableLibraryData};
use crate::parsers::{scan_value_json, scan_value_json_unquoted, value_json, value_json_unquoted};
use crate::text::{lemma_views_push, same_text, to_chars, to_text, to_vec, views};
use crate::utils::strings::{clean_title_chars, cleaned_title};

verus! {

/// What has been read of the game at hand, and the games read so far.
pub struct Progress {
    pub app_id: Seq<char>,
    pub install_path: Seq<char>,
    pub is_installed: bool,
    pub games: Seq<LibraryRecord>,
}

/// Nothing read yet.
pub open spec fn start() -> Progress {
    Progress {
        app_id: Seq::empty(),
        install_path: Seq::empty(),
        is_installed: false,
        games: Seq::empty(),
    }
}

/// What one line adds. A line is read for the first of the keys `app_name`,
/// `install_path`, `is_installed` and `title` that it holds. The first three
/// are kept for the game at hand; the title completes a game, which is
/// listed where the last `is_installed` read `true`.
pub open spec fn after_line(progress: Progress, line: Seq<char>) -> Progress {
    if let Some((_, app_id)) = value_json(line, "app_name"@) {
        Progress { app_id, ..progress }
    } else if let Some((_, install_path)) = value_json(line, "install_path"@) {
        Progress { install_path, ..progress }
    } else if let Some((_, is_installed)) = value_json_unquoted(line, "is_installed"@) {
        Progress { is_installed: is_installed == "true"@, ..progress }
    } else if let Some((_, title)) = value_json(line, "title"@) {
        if progress.is_installed {
            Progress {
                games: progress.games.push(
                    LibraryRecord {
                        app_id: progress.app_id,
                        title: cleaned_title(title),
                        install_path: progress.install_path,
                    },
                ),
                ..progress
            }
        } else {
            progress
        }
    } else {
        progress
    }
}

/// What the lines add, one after the other.
pub open spec fn after_lines(lines: Seq<Seq<char>>) -> Progress
    decreases lines.len(),
{
    if lines.len() == 0 {
        start()
    } else {
        after_line(after_lines(lines.drop_last()), lines.last())
    }
}

/// Returns the installed games that the lines of `nile_library.json` list
pub fn parse_nile_library(lines: &Vec<String>) -> (r: Vec<ParsableLibraryData>)
    ensures
        views(r@) == after_lines(views(lines@)).games,
{
    let key_app_name = to_chars("app_name");
    let key_install_path = to_chars("install_path");
    let key_is_installed = to_chars("is_installed");
    let key_title = to_chars("title");
    let installed = to_chars("true");
    let mut parsed_data: Vec<ParsableLibraryData> = Vec::new();
    let mut curr_app_id: Vec<char> = Vec::new();
    let mut curr_install_path: Vec<char> = Vec::new();
    let mut curr_is_installed = false;
    let mut i: usize = 0;
    proof {
        assert(views(lines@).take(0) =~= Seq::empty());
        assert(views(parsed_data@) =~= Seq::empty());
    }
    while i < lines.len()
        invariant
            i <= lines.len(),
            key_app_name@ == "app_name"@,
            key_install_path@ == "install_path"@,
            key_is_installed@ == "is_installed"@,
            key_title@ == "title"@,
            installed@ == "true"@,
            after_lines(views(lines@).take(i as int)) == (Progress {
                app_id: curr_app_id@,
                install_path: curr_install_path@,
                is_installed: curr_is_installed,
                games: views(parsed_data@),
            }),
        decreases lines.len() - i,
    {
        proof {
            let upto = views(lines@).take(i + 1);
            assert(upto.drop_last() =~= views(lines@).take(i as int));
            assert(upto.last() == lines[i as int]@);
        }
        let line = to_chars(lines[i].as_str());
        i += 1;
        if let Some((_, app_id)) = scan_value_json(line.as_slice(), key_app_name.as_slice()) {
            curr_app_id = to_vec(app_id);
            continue ;
        }
        if let Some((_, install_path)) = scan_value_json(
            line.as_slice(),
            key_install_path.as_slice(),
        ) {
            curr_install_path = to_vec(install_path);
            continue ;
        }
        if let Some((_, is_installed)) = scan_value_json_unquoted(
            line.as_slice(),
            key_is_installed.as_slice(),
        ) {
            curr_is_installed = same_text(is_installed, installed.as_slice());
            continue ;
        }
        if let Some((_, title)) = scan_value_json(line.as_slice(), key_title.as_slice()) {
            if !curr_is_installed {
                continue ;
            }
            let game = ParsableLibraryData {
                app_id: to_text(curr_app_id.as_slice()),
                title: to_text(clean_title_chars(title).as_slice()),
                install_path: to_text(curr_install_path.as_slice()),
            };
            proof {
                lemma_views_push(parsed_data@, game);
            }
            parsed_data.push(game);
        }
    }
    proof {
        assert(views(lines@).take(lines@.len() as int) =~= views(lines@));
    }
    parsed_data
}

} // verus!
