//! Launch commands as plain values: a program, its arguments and the
//! environment variables to set for it.

use vstd::prelude::*;
use crate::text::{lemma_views_push, views};

verus! {

/// A command that launches a game.
#[derive(Debug)]
pub struct LaunchCommand {
    /// The program to run.
    pub program: String,
    /// Its arguments, in order.
    pub args: Vec<String>,
    /// The environment variables to set, as names and values, in order.
    pub envs: Vec<(String, String)>,
}

/// A launch command as text.
pub struct LaunchCommandView {
    pub program: Seq<char>,
    pub args: Seq<Seq<char>>,
    pub envs: Seq<(Seq<char>, Seq<char>)>,
}

impl View for LaunchCommand {
    type V = LaunchCommandView;

    open spec fn view(&self) -> LaunchCommandView {
        LaunchCommandView {
            program: self.program@,
            args: views(self.args@),
            envs: views(self.envs@),
        }
    }
}

impl LaunchCommand {
    /// A copy of the command.
    pub fn duplicate(&self) -> (r: LaunchCommand)
        ensures
            r@ == self@,
    {
        let mut args: Vec<String> = Vec::new();
        let mut i: usize = 0;
        while i < self.args.len()
            invariant
                i <= self.args.len(),
                views(args@) == views(self.args@).take(i as int),
            decreases self.args.len() - i,
        {
            proof {
                lemma_views_push(args@, self.args[i as int]);
                assert(views(self.args@).take(i + 1) =~= views(self.args@).take(i as int).push(
                    self.args[i as int]@,
                ));
            }
            args.push(self.args[i].clone());
            i += 1;
        }
        let mut envs: Vec<(String, String)> = Vec::new();
        let mut j: usize = 0;
        while j < self.envs.len()
            invariant
                j <= self.envs.len(),
                views(envs@) == views(self.envs@).take(j as int),
            decreases self.envs.len() - j,
        {
            let pair = (self.envs[j].0.clone(), self.envs[j].1.clone());
            proof {
                lemma_views_push(envs@, pair);
                assert(views(self.envs@).take(j + 1) =~= views(self.envs@).take(j as int).push(
                    self.envs[j as int]@,
                ));
            }
            envs.push(pair);
            j += 1;
        }
        proof {
            assert(views(args@) =~= views(self.args@));
            assert(views(envs@) =~= views(self.envs@));
        }
        LaunchCommand { program: self.program.clone(), args, envs }
    }
}

/// Appends owned copies of `items` to `target`.
fn push_all(target: &mut Vec<String>, items: &[&str])
    ensures
        views(final(target)@) == views(old(target)@) + views(items@),
{
    let ghost before = views(target@);
    let mut i: usize = 0;
    while i < items.len()
        invariant
            i <= items.len(),
            views(target@) == before + views(items@).take(i as int),
        decreases items.len() - i,
    {
        let item = items[i].to_owned();
        proof {
            lemma_views_push(target@, item);
            assert(views(items@).take(i + 1) =~= views(items@).take(i as int).push(
                items[i as int]@,
            ));
            assert(before + views(items@).take(i as int).push(item@) =~= (before + views(
                items@,
            ).take(i as int)).push(item@));
        }
        target.push(item);
        i += 1;
    }
    proof {
        assert(views(items@).take(items@.len() as int) =~= views(items@));
    }
}

/// Owned copies of the pairs in `items`.
fn owned_pairs(items: &[(&str, &str)]) -> (r: Vec<(String, String)>)
    ensures
        views(r@) == views(items@),
{
    let mut r: Vec<(String, String)> = Vec::new();
    let mut i: usize = 0;
    while i < items.len()
        invariant
            i <= items.len(),
            views(r@) == views(items@).take(i as int),
        decreases items.len() - i,
    {
        let pair = (items[i].0.to_owned(), items[i].1.to_owned());
        proof {
            lemma_views_push(r@, pair);
            assert(views(items@).take(i + 1) =~= views(items@).take(i as int).push(
                items[i as int]@,
            ));
        }
        r.push(pair);
        i += 1;
    }
    proof {
        assert(views(items@).take(items@.len() as int) =~= views(items@));
    }
    r
}

/// No environment variables.
pub open spec fn no_env_vars_view() -> Seq<(&'static str, &'static str)> {
    Seq::empty()
}

/// No environment variables.
pub fn no_env_vars() -> (r: &'static [(&'static str, &'static str)])
    ensures
        r@ == no_env_vars_view(),
{
    let none: &'static [(&'static str, &'static str); 0] = &[];
    proof {
        assert(none@ =~= no_env_vars_view());
    }
    none.as_slice()
}

/// Returns a launch command from a given command str and it's arguments
pub fn get_launch_command(command: &str, args: &[&str], env_vars: &[(&str, &str)]) -> (r:
    LaunchCommand)
    ensures
        r@ == (LaunchCommandView {
            program: command@,
            args: views(args@),
            envs: views(env_vars@),
        }),
{
    let mut owned_args: Vec<String> = Vec::new();
    push_all(&mut owned_args, args);
    proof {
        assert(views(Seq::<String>::empty()) + views(args@) =~= views(args@));
    }
    LaunchCommand { program: command.to_owned(), args: owned_args, envs: owned_pairs(env_vars) }
}

/// The arguments of a command that runs an application through flatpak:
/// flatpak's own arguments, `run`, the application, and the arguments for
/// the application.
pub open spec fn flatpak_args_of(
    application: Seq<char>,
    flatpak_args: Seq<Seq<char>>,
    other_args: Seq<Seq<char>>,
) -> Seq<Seq<char>> {
    flatpak_args + seq!["run"@, application] + other_args
}

/// Returns the launch command that runs `bottle_name` through `flatpak`.
pub fn get_launch_command_flatpak(
    bottle_name: &str,
    flatpak_args: &[&str],
    other_args: &[&str],
    env_vars: &[(&str, &str)],
) -> (r: LaunchCommand)
    ensures
        r@ == (LaunchCommandView {
            program: "flatpak"@,
            args: flatpak_args_of(bottle_name@, views(flatpak_args@), views(other_args@)),
            envs: views(env_vars@),
        }),
{
    let mut command = get_launch_command("flatpak", flatpak_args, env_vars);
    let run = "run".to_owned();
    let application = bottle_name.to_owned();
    proof {
        lemma_views_push(command.args@, run);
        lemma_views_push(command.args@.push(run), application);
        assert(views(flatpak_args@).push(run@).push(application@) =~= views(flatpak_args@)
            + seq!["run"@, bottle_name@]);
    }
    command.args.push(run);
    command.args.push(application);
    push_all(&mut command.args, other_args);
    command
}

} // verus!
