//! The file of installed games of GOG, read line by line: the form for files
//! that keep each field on a line of its own.

use vstd::prelude::*;
use crate::linux::launchers::heroic::{LibraryRecord, ParsableLibraryData};
use crate::parsers::{scan_value_json, value_json};
use crate::text::{
    find_last, lemma_views_push, split_at_last, tail, to_chars, to_text, to_vec, views,
};
use crate::utils::strings::{clean_title_chars, cleaned_title};

verus! {

/// What has been read of the game at hand, and the games read so far.
pub struct Progress {
    pub install_path: Seq<char>,
    pub title: Seq<char>,
    pub games: Seq<LibraryRecord>,
}

/// Nothing read yet.
pub open spec fn start() -> Progress {
    Progress { install_path: Seq::empty(), title: Seq::empty(), games: Seq::empty() }
}

/// What a line with the key `appName` adds: a game with the install path
/// and the title at hand.
pub open spec fn with_app_name(progress: Progress, line: Seq<char>) -> Progress {
    match value_json(line, "appName"@) {
        Some((_, app_id)) => Progress {
            games: progress.games.push(
                LibraryRecord {
                    app_id,
                    title: progress.title,
                    install_path: progress.install_path,
                },
            ),
            ..progress
        },
        None => progress,
    }
}

/// What one line adds. An install path is kept for the game at hand, with
/// what follows its last slash, cleaned, as the title; a line whose install
/// path has no slash is passed over altogether. The key `appName` completes
/// a game, also on the line of the install path.
pub open spec fn after_line(progress: Progress, line: Seq<char>) -> Progress {
    match value_json(line, "install_path"@) {
        Some((_, install_path)) => match split_at_last(install_path, '/') {
            Some((_, name)) => with_app_name(
                Progress { install_path, title: cleaned_title(name), ..progress },
                line,
            ),
            None => progress,
        },
        None => with_app_name(progress, line),
    }
}

/// What the lines add, one after the other.
pub open spec fn after_lines(lines: Seq<Seq<char>>) -> Progress
    decreases lines.len(),
{
    if lines.len() == 0 {
        start()
    } else {
        after_line(after_lines(lines.drop_last()), lines.last())
    }
}

/// Returns the installed games that the lines of `installed.json` list
pub fn parse_gog_installed(lines: &Vec<String>) -> (r: Vec<ParsableLibraryData>)
    ensures
        views(r@) == after_lines(views(lines@)).games,
{
    let key_install_path = to_chars("install_path");
    let key_app_name = to_chars("appName");
    let mut parsed_data: Vec<ParsableLibraryData> = Vec::new();
    let mut curr_install_path: Vec<char> = Vec::new();
    let mut curr_title: Vec<char> = Vec::new();
    let mut i: usize = 0;
    proof {
        assert(views(lines@).take(0) =~= Seq::empty());
        assert(views(parsed_data@) =~= Seq::empty());
    }
    while i < lines.len()
        invariant
            i <= lines.len(),
            key_install_path@ == "install_path"@,
            key_app_name@ == "appName"@,
            after_lines(views(lines@).take(i as int)) == (Progress {
                install_path: curr_install_path@,
                title: curr_title@,
                games: views(parsed_data@),
            }),
        decreases lines.len() - i,
    {
        proof {
            let upto = views(lines@).take(i + 1);
            assert(upto.drop_last() =~= views(lines@).take(i as int));
            assert(upto.last() == lines[i as int]@);
        }
        let line = to_chars(lines[i].as_str());
        i += 1;
        if let Some((_, install_path)) = scan_value_json(
            line.as_slice(),
            key_install_path.as_slice(),
        ) {
            match find_last(install_path, '/') {
                Some(at) => {
                    curr_title = clean_title_chars(tail(install_path, at + 1));
                    curr_install_path = to_vec(install_path);
                },
                None => {
                    continue ;
                },
            }
        }
        if let Some((_, app_id)) = scan_value_json(line.as_slice(), key_app_name.as_slice()) {
            let game = ParsableLibraryData {
                app_id: to_text(app_id),
                title: to_text(curr_title.as_slice()),
                install_path: to_text(curr_install_path.as_slice()),
            };
            proof {
                lemma_views_push(parsed_data@, game);
            }
            parsed_data.push(game);
        }
    }
    proof {
        assert(views(lines@).take(lines@.len() as int) =~= views(lines@));
    }
    parsed_data
}

} // verus!
