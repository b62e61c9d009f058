//! The file of install information of the Epic Games Store, read line by
//! line: the form for files that keep each field on a line of its own.

use vstd::prelude::*;
use crate::linux::launchers::heroic::{LibraryRecord, ParsableLibraryData};
use crate::parsers::{scan_value_json, value_json};
use crate::text::{lemma_views_push, to_chars, to_text, to_vec, views};
use crate::utils::strings::{clean_title_chars, cleaned_title};

verus! {

/// What the file of install information says of one game.
pub type ParsableInstallInfoData = ParsableLibraryData;

/// What has been read of the game at hand, and the games read so far.
pub struct Progress {
    pub app_id: Seq<char>,
    pub title: Seq<char>,
    pub games: Seq<LibraryRecord>,
}

/// Nothing read yet.
pub open spec fn start() -> Progress {
    Progress { app_id: Seq::empty(), title: Seq::empty(), games: Seq::empty() }
}

/// What one line adds. A line is read for the first of the keys `app_name`,
/// `title` and `install_path` that it holds. The first two are kept for the
/// game at hand; the install path completes a game, which is listed with the
/// title cleaned.
pub open spec fn after_line(progress: Progress, line: Seq<char>) -> Progress {
    if let Some((_, app_id)) = value_json(line, "app_name"@) {
        Progress { app_id, ..progress }
    } else if let Some((_, title)) = value_json(line, "title"@) {
        Progress { title, ..progress }
    } else if let Some((_, install_path)) = value_json(line, "install_path"@) {
        Progress {
            games: progress.games.push(
                LibraryRecord {
                    app_id: progress.app_id,
                    title: cleaned_title(progress.title),
                    install_path,
                },
            ),
            ..progress
        }
    } else {
        progress
    }
}

/// What the lines add, one after the other.
pub open spec fn after_lines(lines: Seq<Seq<char>>) -> Progress
    decreases lines.len(),
{
    if lines.len() == 0 {
        start()
    } else {
        after_line(after_lines(lines.drop_last()), lines.last())
    }
}

/// Returns the installed games that the lines of `legendary_install_info.json` list
pub fn parse_install_info(lines: &Vec<String>) -> (r: Vec<ParsableInstallInfoData>)
    ensures
        views(r@) == after_lines(views(lines@)).games,
{
    let key_app_name = to_chars("app_name");
    let key_title = to_chars("title");
    let key_install_path = to_chars("install_path");
    let mut parsed_data: Vec<ParsableInstallInfoData> = Vec::new();
    let mut curr_app_id: Vec<char> = Vec::new();
    let mut curr_title: Vec<char> = Vec::new();
    let mut i: usize = 0;
    proof {
        assert(views(lines@).take(0) =~= Seq::empty());
        assert(views(parsed_data@) =~= Seq::empty());
    }
    while i < lines.len()
        invariant
            i <= lines.len(),
            key_app_name@ == "app_name"@,
            key_title@ == "title"@,
            key_install_path@ == "install_path"@,
            after_lines(views(lines@).take(i as int)) == (Progress {
                app_id: curr_app_id@,
                title: curr_title@,
                games: views(parsed_data@),
            }),
        decreases lines.len() - i,
    {
        proof {
            let upto = views(lines@).take(i + 1);
            assert(upto.drop_last() =~= views(lines@).take(i as int));
            assert(upto.last() == lines[i as int]@);
        }
        let line = to_chars(lines[i].as_str());
        i += 1;
        if let Some((_, app_id)) = scan_value_json(line.as_slice(), key_app_name.as_slice()) {
            curr_app_id = to_vec(app_id);
            continue ;
        }
        if let Some((_, title)) = scan_value_json(line.as_slice(), key_title.as_slice()) {
            curr_title = to_vec(title);
            continue ;
        }
        if let Some((_, install_path)) = scan_value_json(
            line.as_slice(),
            key_install_path.as_slice(),
        ) {
            let game = ParsableLibraryData {
                app_id: to_text(curr_app_id.as_slice()),
                title: to_text(clean_title_chars(curr_title.as_slice()).as_slice()),
                install_path: to_text(install_path),
            };
            proof {
                lemma_views_push(parsed_data@, game);
            }
            parsed_data.push(game);
        }
    }
    proof {
        assert(views(lines@).take(lines@.len() as int) =~= views(lines@));
    }
    parsed_data
}

} // verus!
