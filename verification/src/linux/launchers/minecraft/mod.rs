//! Modded Minecraft: the instances of ATLauncher and of Prism Launcher.

pub mod at;
pub mod prism;

use vstd::prelude::*;
use vstd::string::*;
use crate::text::views;
use crate::utils::commands::{
    flatpak_args_of, get_launch_command, get_launch_command_flatpak, no_env_vars, no_env_vars_view,
    LaunchCommand, LaunchCommandView,
};

verus! {

/// The title under which an instance is listed.
pub open spec fn minecraft_title(title: Seq<char>) -> Seq<char> {
    "Minecraft: "@ + title
}

/// The title under which an instance is listed: `Minecraft: ` and its name.
pub fn get_minecraft_title(title: &str) -> (r: String)
    ensures
        r@ == minecraft_title(title@),
{
    let mut full = "Minecraft: ".to_owned();
    full.append(title);
    full
}

/// The command that launches the instance `title`: through flatpak as the
/// application `flatpak_id`, else with the program `program`.
pub open spec fn instance_launch_command(
    program: Seq<char>,
    flatpak_id: Seq<char>,
    title: Seq<char>,
    is_using_flatpak: bool,
) -> LaunchCommandView {
    let args = seq!["--launch"@, title];
    if is_using_flatpak {
        LaunchCommandView {
            program: "flatpak"@,
            args: flatpak_args_of(flatpak_id, Seq::empty(), args),
            envs: Seq::empty(),
        }
    } else {
        LaunchCommandView { program, args, envs: Seq::empty() }
    }
}

/// Builds the command that launches an instance.
pub fn get_instance_launch_command(
    program: &str,
    flatpak_id: &str,
    title: &str,
    is_using_flatpak: bool,
) -> (r: LaunchCommand)
    ensures
        r@ == instance_launch_command(program@, flatpak_id@, title@, is_using_flatpak),
{
    let args = ["--launch", title];
    proof {
        assert(views(args@) =~= seq!["--launch"@, title@]);
        assert(views(no_env_vars_view()) =~= Seq::empty());
    }
    if is_using_flatpak {
        let flatpak_args: [&str; 0] = [];
        proof {
            assert(views(flatpak_args@) =~= Seq::<Seq<char>>::empty());
        }
        get_launch_command_flatpak(
            flatpak_id,
            flatpak_args.as_slice(),
            args.as_slice(),
            no_env_vars(),
        )
    } else {
        get_launch_command(program, args.as_slice(), no_env_vars())
    }
}

} // verus!
