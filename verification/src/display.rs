//! The texts that a display window is made with: its label, the address it
//! shows and its title.

use crate::text::{decimal, decimal_string};
use vstd::prelude::*;

verus! {

/// The game that a window without a game is labelled with.
pub open spec fn default_game() -> Seq<char> {
    "default"@
}

/// The name of the game as a value of the model.
pub open spec fn game_view(game: Option<String>) -> Option<Seq<char>> {
    match game {
        Some(name) => Some(name@),
        None => None,
    }
}

/// The game of a window, or the default where none is given.
pub open spec fn game_or_default(game: Option<Seq<char>>) -> Seq<char> {
    match game {
        Some(name) => name,
        None => default_game(),
    }
}

/// The display of a window, or the first where none is given.
pub open spec fn display_or_first(display: Option<u32>) -> u32 {
    match display {
        Some(index) => index,
        None => 0,
    }
}

/// The label of a display window: `display-<game>-<display>`.
pub open spec fn window_label(game: Option<Seq<char>>, display: Option<u32>) -> Seq<char> {
    "display-"@ + game_or_default(game) + "-"@ + decimal(display_or_first(display) as nat)
}

/// The address that a display window shows. It names the game and the
/// display as far as they are given.
pub open spec fn window_url(game: Option<Seq<char>>, display: Option<u32>) -> Seq<char> {
    match (game, display) {
        (Some(name), Some(index)) => "viewer.html?mode=display&game="@ + name + "&displayIndex="@
            + decimal(index as nat),
        (Some(name), None) => "viewer.html?mode=display&game="@ + name,
        (None, Some(index)) => "viewer.html?mode=display&displayIndex="@ + decimal(index as nat),
        (None, None) => "viewer.html?mode=display"@,
    }
}

/// The title of a display window. It counts the displays from one.
pub open spec fn window_title(game: Option<Seq<char>>, display: Option<u32>) -> Seq<char> {
    "Blumbotron Display - "@ + game_or_default(game) + " ("@ + decimal(
        (display_or_first(display) + 1) as nat,
    ) + ")"@
}

/// The greeting for `name`.
pub open spec fn greeting(name: Seq<char>) -> Seq<char> {
    "Hello, "@ + name + "! Welcome to Blumbotron!"@
}

/// The label of the display window for `game` on `display`.
pub fn display_window_label(game: &Option<String>, display: Option<u32>) -> (text: String)
    ensures
        text@ == window_label(game_view(*game), display),
{
    let mut text = String::from_str("display-");
    match game {
        Some(name) => text.append(name.as_str()),
        None => text.append("default"),
    }
    text.append("-");
    let index: u32 = match display {
        Some(index) => index,
        None => 0,
    };
    let digits = decimal_string(index as u64);
    text.append(digits.as_str());
    text
}

/// The address that the display window for `game` on `display` shows.
pub fn display_window_url(game: &Option<String>, display: Option<u32>) -> (text: String)
    ensures
        text@ == window_url(game_view(*game), display),
{
    let mut text = String::from_str("viewer.html?mode=display");
    match game {
        Some(name) => {
            text.append("&game=");
            text.append(name.as_str());
        },
        None => {},
    }
    match display {
        Some(index) => {
            text.append("&displayIndex=");
            let digits = decimal_string(index as u64);
            text.append(digits.as_str());
        },
        None => {},
    }
    proof {
        reveal_strlit("viewer.html?mode=display");
        reveal_strlit("&game=");
        reveal_strlit("&displayIndex=");
        reveal_strlit("viewer.html?mode=display&game=");
        reveal_strlit("viewer.html?mode=display&displayIndex=");
        assert("viewer.html?mode=display"@ + "&game="@ =~= "viewer.html?mode=display&game="@);
        assert("viewer.html?mode=display"@ + "&displayIndex="@
            =~= "viewer.html?mode=display&displayIndex="@);
        assert(text@ =~= window_url(game_view(*game), display));
    }
    text
}

/// The title of the display window for `game` on `display`.
pub fn display_window_title(game: &Option<String>, display: Option<u32>) -> (text: String)
    ensures
        text@ == window_title(game_view(*game), display),
{
    let mut text = String::from_str("Blumbotron Display - ");
    match game {
        Some(name) => text.append(name.as_str()),
        None => text.append("default"),
    }
    text.append(" (");
    let index: u64 = match display {
        Some(index) => index as u64,
        None => 0,
    };
    let digits = decimal_string(index + 1);
    text.append(digits.as_str());
    text.append(")");
    text
}

/// The greeting for `name`.
pub fn greet(name: &str) -> (text: String)
    ensures
        text@ == greeting(name@),
{
    let mut text = String::from_str("Hello, ");
    text.append(name);
    text.append("! Welcome to Blumbotron!");
    text
}

} // verus!
