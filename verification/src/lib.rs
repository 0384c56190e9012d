//! Core of a small host/client multiplayer session: the wire protocol and its
//! binary codec, the per-client network-identity translator, the world state
//! store of placed tiles, the lobby of connected players, and the server and
//! client reconcilers that keep the two sides consistent.
use vstd::prelude::*;

pub mod client;
pub mod codec;
pub mod ids;
pub mod kv;
pub mod lobby;
pub mod message;
pub mod player;
pub mod server;
pub mod tile;

verus! {

/// Which role this process plays in a session.
#[derive(Clone, Copy, PartialEq, Eq, Structural, Debug)]
pub enum MultiplayerRole {
    Host,
    Client,
    Server,
}

/// The role a stored role code stands for: 0 is the host, 1 a client, 2 the server.
pub open spec fn role_of_code(code: u8) -> MultiplayerRole {
    if code == 0 {
        MultiplayerRole::Host
    } else if code == 1 {
        MultiplayerRole::Client
    } else {
        MultiplayerRole::Server
    }
}

/// Decodes a stored role code; codes above 2 name no role.
pub fn multiplayer_role(code: u8) -> (r: MultiplayerRole)
    requires
        code <= 2,
    ensures
        r == role_of_code(code),
{
    if code == 0 {
        MultiplayerRole::Host
    } else if code == 1 {
        MultiplayerRole::Client
    } else {
        MultiplayerRole::Server
    }
}

/// The opening of a green-foreground stretch of terminal text.
pub open spec fn sgr_green() -> Seq<char> {
    seq!['\u{1b}', '[', '3', '2', 'm']
}

/// The opening of a yellow-foreground stretch of terminal text.
pub open spec fn sgr_yellow() -> Seq<char> {
    seq!['\u{1b}', '[', '3', '3', 'm']
}

/// The opening of a blue-foreground stretch of terminal text.
pub open spec fn sgr_blue() -> Seq<char> {
    seq!['\u{1b}', '[', '3', '4', 'm']
}

/// The return to the default foreground.
pub open spec fn sgr_default_fg() -> Seq<char> {
    seq!['\u{1b}', '[', '3', '9', 'm']
}

/// Relies on owo_colors' OwoColorize::green: its display writes the green
/// foreground code, the text, and the default-foreground code.
#[verifier::external_body]
fn paint_green(s: &str) -> (r: String)
    ensures
        r@ == sgr_green() + s@ + sgr_default_fg(),
{
    owo_colors::OwoColorize::green(&s).to_string()
}

/// Relies on owo_colors' OwoColorize::yellow: its display writes the
/// yellow foreground code, the text, and the default-foreground code.
#[verifier::external_body]
fn paint_yellow(s: &str) -> (r: String)
    ensures
        r@ == sgr_yellow() + s@ + sgr_default_fg(),
{
    owo_colors::OwoColorize::yellow(&s).to_string()
}

/// Relies on owo_colors' OwoColorize::blue: its display writes the blue
/// foreground code, the text, and the default-foreground code.
#[verifier::external_body]
fn paint_blue(s: &str) -> (r: String)
    ensures
        r@ == sgr_blue() + s@ + sgr_default_fg(),
{
    owo_colors::OwoColorize::blue(&s).to_string()
}

/// The coloured name a role logs under.
pub open spec fn speaker_text(role: MultiplayerRole) -> Seq<char> {
    match role {
        MultiplayerRole::Host => sgr_green() + "host"@ + sgr_default_fg(),
        MultiplayerRole::Client => sgr_blue() + "client"@ + sgr_default_fg(),
        MultiplayerRole::Server => sgr_yellow() + "server"@ + sgr_default_fg(),
    }
}

/// The coloured name under which this process speaks in the log: the host
/// green, a client blue, the server yellow.
pub fn speaker(role: MultiplayerRole) -> (r: String)
    ensures
        r@ == speaker_text(role),
{
    match role {
        MultiplayerRole::Host => paint_green("host"),
        MultiplayerRole::Client => paint_blue("client"),
        MultiplayerRole::Server => paint_yellow("server"),
    }
}

} // verus!
