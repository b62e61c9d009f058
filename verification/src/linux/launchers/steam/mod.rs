//! Steam: the games of its libraries, and the shortcuts that a user added.

pub mod steam_base;
pub mod steam_shortcuts;

use vstd::prelude::*;
use vstd::string::*;
use crate::text::views;
use crate::utils::commands::{
    flatpak_args_of, get_launch_command, get_launch_command_flatpak, no_env_vars, no_env_vars_view,
    LaunchCommand, LaunchCommandView,
};
use crate::utils::paths::{join_path, joined};

verus! {

/// The command that runs the game `app_id` through Steam.
pub open spec fn steam_launch_command(app_id: Seq<char>, is_using_flatpak: bool) -> LaunchCommandView {
    let args = seq!["steam://rungameid/"@ + app_id];
    if is_using_flatpak {
        LaunchCommandView {
            program: "flatpak"@,
            args: flatpak_args_of("com.valvesoftware.Steam"@, Seq::empty(), args),
            envs: Seq::empty(),
        }
    } else {
        LaunchCommandView { program: "steam"@, args, envs: Seq::empty() }
    }
}

/// Builds the command that runs a game through Steam.
pub fn get_steam_launch_command(app_id: &str, is_using_flatpak: bool) -> (r: LaunchCommand)
    ensures
        r@ == steam_launch_command(app_id@, is_using_flatpak),
{
    let mut game_run_arg = "steam://rungameid/".to_owned();
    game_run_arg.append(app_id);
    let args = [game_run_arg.as_str()];
    proof {
        assert(views(args@) =~= seq!["steam://rungameid/"@ + app_id@]);
        assert(views(no_env_vars_view()) =~= Seq::empty());
    }
    if is_using_flatpak {
        let flatpak_args: [&str; 0] = [];
        proof {
            assert(views(flatpak_args@) =~= Seq::<Seq<char>>::empty());
        }
        get_launch_command_flatpak(
            "com.valvesoftware.Steam",
            flatpak_args.as_slice(),
            args.as_slice(),
            no_env_vars(),
        )
    } else {
        get_launch_command("steam", args.as_slice(), no_env_vars())
    }
}

/// The native directory of Steam.
pub fn get_steam_dir(path_data: &str) -> (r: String)
    ensures
        r@ == joined(path_data@, "Steam"@),
{
    join_path(path_data, "Steam")
}

/// The directory of Steam in its flatpak.
pub fn get_steam_flatpak_dir(path_home: &str) -> (r: String)
    ensures
        r@ == joined(path_home@, ".var/app/com.valvesoftware.Steam/data/Steam"@),
{
    join_path(path_home, ".var/app/com.valvesoftware.Steam/data/Steam")
}

} // verus!
