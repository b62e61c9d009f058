//! Types used by this crate.

use vstd::prelude::*;
use crate::text::text_of;
use crate::utils::commands::{LaunchCommand, LaunchCommandView};

verus! {

/// Data structure representing a supported games source
#[derive(Clone, Copy, PartialEq, Eq, Structural, Debug)]
pub enum SupportedLaunchers {
    /// Regular Steam games
    Steam,
    /// Non-Steam games added to Steam manually by the user
    SteamShortcuts,
    /// Lutris games
    Lutris,
    /// Bottles games
    Bottles,
    /// Heroic Games Launcher - Amazon Prime games
    HeroicGamesAmazon,
    /// Heroic Games Launcher - Epic Games Store games
    HeroicGamesEpic,
    /// Heroic Games Launcher - GOG games
    HeroicGamesGOG,
    /// Heroic Games Launcher - games added manually by the user
    HeroicGamesSideload,
    /// Minecraft instances managed by Prism
    MinecraftPrism,
    /// Minecraft instances managed by ATLauncher
    MinecraftAT,
    /// Itch.io games
    Itch,
}

impl SupportedLaunchers {
    /// The name under which the source is shown.
    pub open spec fn display_name(self) -> Seq<char> {
        match self {
            SupportedLaunchers::Steam => "Steam"@,
            SupportedLaunchers::SteamShortcuts => "Steam (shortcuts)"@,
            SupportedLaunchers::HeroicGamesAmazon => "Heroic Games Launcher (Amazon Prime Gaming)"@,
            SupportedLaunchers::HeroicGamesEpic => "Heroic Games Launcher (Epic Games Store)"@,
            SupportedLaunchers::HeroicGamesGOG => "Heroic Games Launcher (GOG)"@,
            SupportedLaunchers::HeroicGamesSideload => "Heroic Games Launcher (Sideload)"@,
            SupportedLaunchers::Lutris => "Lutris"@,
            SupportedLaunchers::Bottles => "Bottles"@,
            SupportedLaunchers::MinecraftPrism => "Prism Launcher"@,
            SupportedLaunchers::MinecraftAT => "ATLauncher"@,
            SupportedLaunchers::Itch => "Itch"@,
        }
    }

    /// The name under which the source is shown.
    pub fn name(&self) -> (r: &'static str)
        ensures
            r@ == self.display_name(),
    {
        match self {
            SupportedLaunchers::Steam => "Steam",
            SupportedLaunchers::SteamShortcuts => "Steam (shortcuts)",
            SupportedLaunchers::HeroicGamesAmazon => "Heroic Games Launcher (Amazon Prime Gaming)",
            SupportedLaunchers::HeroicGamesEpic => "Heroic Games Launcher (Epic Games Store)",
            SupportedLaunchers::HeroicGamesGOG => "Heroic Games Launcher (GOG)",
            SupportedLaunchers::HeroicGamesSideload => "Heroic Games Launcher (Sideload)",
            SupportedLaunchers::Lutris => "Lutris",
            SupportedLaunchers::Bottles => "Bottles",
            SupportedLaunchers::MinecraftPrism => "Prism Launcher",
            SupportedLaunchers::MinecraftAT => "ATLauncher",
            SupportedLaunchers::Itch => "Itch",
        }
    }
}

/// Data structure which defines all relevant data about any particular game
#[derive(Debug)]
pub struct Game {
    /// Game title / name.
    pub title: String,
    /// Path to the game's icon (if one was found).
    pub path_icon: Option<String>,
    /// Path to the game's box art image (if one was found).
    pub path_box_art: Option<String>,
    /// Path to the game's root directory (if one was found).
    pub path_game_dir: Option<String>,
    /// Command to launch the game.
    pub launch_command: LaunchCommand,
    /// Game detection source.
    pub source: SupportedLaunchers,
}

/// A game as text.
pub struct GameView {
    pub title: Seq<char>,
    pub path_icon: Option<Seq<char>>,
    pub path_box_art: Option<Seq<char>>,
    pub path_game_dir: Option<Seq<char>>,
    pub launch_command: LaunchCommandView,
    pub source: SupportedLaunchers,
}

impl View for Game {
    type V = GameView;

    open spec fn view(&self) -> GameView {
        GameView {
            title: self.title@,
            path_icon: text_of(self.path_icon),
            path_box_art: text_of(self.path_box_art),
            path_game_dir: text_of(self.path_game_dir),
            launch_command: self.launch_command@,
            source: self.source,
        }
    }
}

/// A copy of an optional string.
pub fn duplicate_text(text: &Option<String>) -> (r: Option<String>)
    ensures
        text_of(r) == text_of(*text),
{
    match text {
        Some(text) => Some(text.clone()),
        None => None,
    }
}

impl Game {
    /// A copy of the game.
    pub fn duplicate(&self) -> (r: Game)
        ensures
            r@ == self@,
    {
        Game {
            title: self.title.clone(),
            path_icon: duplicate_text(&self.path_icon),
            path_box_art: duplicate_text(&self.path_box_art),
            path_game_dir: duplicate_text(&self.path_game_dir),
            launch_command: self.launch_command.duplicate(),
            source: self.source,
        }
    }
}

} // verus!
