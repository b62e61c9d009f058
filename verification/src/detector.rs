//! What a detector makes of the games that the launchers found: all of
//! them in one list, those with box art, and those of one launcher.

use vstd::prelude::*;
use crate::data::{Game, GameView, SupportedLaunchers};
use crate::text::{lemma_views_push, views};

verus! {

/// The games of one launcher.
pub type GamesOfLauncher = (SupportedLaunchers, Vec<Game>);

/// The lists of `lists` one after the other.
pub open spec fn flattened(lists: Seq<Seq<GameView>>) -> Seq<GameView>
    decreases lists.len(),
{
    if lists.len() == 0 {
        Seq::empty()
    } else {
        flattened(lists.drop_last()) + lists.last()
    }
}

/// Appends copies of `games` to `target`.
pub fn extend_games(target: &mut Vec<Game>, games: &Vec<Game>)
    ensures
        views(final(target)@) == views(old(target)@) + views(games@),
{
    let ghost before = views(target@);
    let mut i: usize = 0;
    proof {
        assert(before + views(games@).take(0) =~= before);
    }
    while i < games.len()
        invariant
            i <= games.len(),
            views(target@) == before + views(games@).take(i as int),
        decreases games.len() - i,
    {
        let game = games[i].duplicate();
        proof {
            lemma_views_push(target@, game);
            assert((before + views(games@).take(i as int)).push(game@) =~= before + views(
                games@,
            ).take(i + 1));
        }
        target.push(game);
        i += 1;
    }
    proof {
        assert(views(games@).take(games@.len() as int) =~= views(games@));
    }
}

/// What asking one launcher gave.
#[derive(Debug)]
pub enum Outcome {
    /// The launcher is not on this machine; it was not asked for its games.
    NotDetected,
    /// The launcher is there, but its games could not be read.
    Failed,
    /// The games of the launcher.
    Games(Vec<Game>),
}

/// A launcher and what asking it gave.
pub type Asked = (SupportedLaunchers, Outcome);

impl Outcome {
    /// The games that the outcome holds: none where the launcher was not
    /// detected or failed.
    pub open spec fn games(self) -> Seq<GameView> {
        match self {
            Outcome::Games(games) => views(games@),
            _ => Seq::empty(),
        }
    }
}

/// All games of all launchers, in the order of the launchers: a launcher
/// that was not detected or that failed adds nothing, and takes nothing from
/// the launchers before and after it.
pub open spec fn all_games_of(asked: Seq<Asked>) -> Seq<GameView>
    decreases asked.len(),
{
    if asked.len() == 0 {
        Seq::empty()
    } else {
        all_games_of(asked.drop_last()) + asked.last().1.games()
    }
}

/// The launchers that gave their games, each with its games, in the order
/// of the launchers.
pub open spec fn per_launcher_of(asked: Seq<Asked>) -> Seq<(SupportedLaunchers, Seq<GameView>)>
    decreases asked.len(),
{
    if asked.len() == 0 {
        Seq::empty()
    } else {
        let before = per_launcher_of(asked.drop_last());
        match asked.last().1 {
            Outcome::Games(games) => before.push((asked.last().0, views(games@))),
            _ => before,
        }
    }
}

/// The games of each launcher, as text.
pub open spec fn per_launcher_view(per_launcher: Seq<GamesOfLauncher>) -> Seq<
    (SupportedLaunchers, Seq<GameView>),
> {
    Seq::new(per_launcher.len(), |i: int| (per_launcher[i].0, views(per_launcher[i].1@)))
}

/// Returns all detected games from all detected launchers.
pub fn get_all_detected_games(asked: &Vec<Asked>) -> (r: Vec<Game>)
    ensures
        views(r@) == all_games_of(asked@),
{
    let mut all: Vec<Game> = Vec::new();
    let mut i: usize = 0;
    proof {
        assert(asked@.take(0) =~= Seq::empty());
        assert(views(all@) =~= Seq::empty());
    }
    while i < asked.len()
        invariant
            i <= asked.len(),
            views(all@) == all_games_of(asked@.take(i as int)),
        decreases asked.len() - i,
    {
        proof {
            assert(asked@.take(i + 1).drop_last() =~= asked@.take(i as int));
            assert(asked@.take(i + 1).last() == asked[i as int]);
        }
        match &asked[i].1 {
            Outcome::Games(games) => {
                extend_games(&mut all, games);
            },
            _ => {
                proof {
                    assert(views(all@) + Seq::<GameView>::empty() =~= views(all@));
                }
            },
        }
        i += 1;
    }
    proof {
        assert(asked@.take(asked@.len() as int) =~= asked@);
    }
    all
}

/// Returns all detected games divided by their source launchers.
pub fn get_all_detected_games_per_launcher(asked: &Vec<Asked>) -> (r: Vec<GamesOfLauncher>)
    ensures
        per_launcher_view(r@) == per_launcher_of(asked@),
{
    let mut per_launcher: Vec<GamesOfLauncher> = Vec::new();
    let mut i: usize = 0;
    proof {
        assert(asked@.take(0) =~= Seq::empty());
        assert(per_launcher_view(per_launcher@) =~= Seq::empty());
    }
    while i < asked.len()
        invariant
            i <= asked.len(),
            per_launcher_view(per_launcher@) == per_launcher_of(asked@.take(i as int)),
        decreases asked.len() - i,
    {
        proof {
            assert(asked@.take(i + 1).drop_last() =~= asked@.take(i as int));
            assert(asked@.take(i + 1).last() == asked[i as int]);
        }
        match &asked[i].1 {
            Outcome::Games(games) => {
                let mut copies: Vec<Game> = Vec::new();
                extend_games(&mut copies, games);
                let ghost before = per_launcher@;
                per_launcher.push((asked[i].0, copies));
                proof {
                    assert(views(Seq::<Game>::empty()) + views(games@) =~= views(games@));
                    assert(per_launcher_view(per_launcher@) =~= per_launcher_view(before).push(
                        (asked[i as int].0, views(games@)),
                    ));
                }
            },
            _ => {},
        }
        i += 1;
    }
    proof {
        assert(asked@.take(asked@.len() as int) =~= asked@);
    }
    per_launcher
}

/// The games that have box art, in their order.
pub open spec fn with_box_art(games: Seq<GameView>) -> Seq<GameView> {
    games.filter(|game: GameView| game.path_box_art is Some)
}

/// All games which also have detected box art.
pub fn get_all_detected_games_with_box_art(games: &Vec<Game>) -> (r: Vec<Game>)
    ensures
        views(r@) == with_box_art(views(games@)),
{
    let ghost keep = |game: GameView| game.path_box_art is Some;
    let mut kept: Vec<Game> = Vec::new();
    let mut i: usize = 0;
    proof {
        reveal(Seq::filter);
        assert(views(games@).take(0) =~= Seq::empty());
        assert(views(kept@) =~= Seq::empty());
    }
    while i < games.len()
        invariant
            i <= games.len(),
            keep == |game: GameView| game.path_box_art is Some,
            views(kept@) == views(games@).take(i as int).filter(keep),
        decreases games.len() - i,
    {
        proof {
            let upto = views(games@).take(i + 1);
            assert(upto.drop_last() =~= views(games@).take(i as int));
            assert(upto.last() == games[i as int]@);
            reveal(Seq::filter);
        }
        if games[i].path_box_art.is_some() {
            let game = games[i].duplicate();
            proof {
                lemma_views_push(kept@, game);
            }
            kept.push(game);
        }
        i += 1;
    }
    proof {
        assert(views(games@).take(games@.len() as int) =~= views(games@));
    }
    kept
}

/// `at` is the index of the first launcher of the kind `launcher_type`
/// that was detected.
pub open spec fn is_first_detected_of(
    asked: Seq<Asked>,
    launcher_type: SupportedLaunchers,
    at: int,
) -> bool {
    &&& 0 <= at < asked.len()
    &&& asked[at].0 == launcher_type
    &&& !(asked[at].1 is NotDetected)
    &&& forall|j: int|
        0 <= j < at ==> (#[trigger] asked[j]).0 != launcher_type || asked[j].1 is NotDetected
}

/// Returns all detected games from a specific launcher: the games of the
/// first launcher of that kind that was detected. Where it failed, or where
/// no launcher of that kind was detected, there is nothing to return.
pub fn get_all_detected_games_from_specific_launcher(
    asked: &Vec<Asked>,
    launcher_type: SupportedLaunchers,
) -> (r: Option<Vec<Game>>)
    ensures
        r matches Some(games) ==> exists|at: int|
            is_first_detected_of(asked@, launcher_type, at) && (#[trigger] asked[at]).1 is Games
                && views(games@) == asked[at].1.games(),
        r is None ==> forall|at: int|
            is_first_detected_of(asked@, launcher_type, at) ==> (#[trigger] asked[at]).1 is Failed,
{
    let mut i: usize = 0;
    while i < asked.len()
        invariant
            i <= asked.len(),
            forall|j: int|
                0 <= j < i ==> (#[trigger] asked[j]).0 != launcher_type || asked[j].1
                    is NotDetected,
        decreases asked.len() - i,
    {
        if asked[i].0 == launcher_type {
            match &asked[i].1 {
                Outcome::NotDetected => {},
                Outcome::Failed => {
                    proof {
                        assert(is_first_detected_of(asked@, launcher_type, i as int));
                        assert forall|at: int|
                            is_first_detected_of(asked@, launcher_type, at) implies (
                        #[trigger] asked[at]).1 is Failed by {
                            if at < i {
                                assert(asked[at].0 != launcher_type || asked[at].1 is NotDetected);
                            }
                            if i < at {
                                assert(asked[i as int].0 != launcher_type || asked[i as int].1
                                    is NotDetected);
                            }
                        }
                    }
                    return None;
                },
                Outcome::Games(found) => {
                    let mut games: Vec<Game> = Vec::new();
                    extend_games(&mut games, found);
                    proof {
                        assert(views(Seq::<Game>::empty()) + views(found@) =~= views(found@));
                        assert(is_first_detected_of(asked@, launcher_type, i as int));
                    }
                    return Some(games);
                },
            }
        }
        i += 1;
    }
    proof {
        assert forall|at: int| is_first_detected_of(asked@, launcher_type, at) implies (
        #[trigger] asked[at]).1 is Failed by {
            assert(asked[at].0 != launcher_type || asked[at].1 is NotDetected);
        }
    }
    None
}

} // verus!
