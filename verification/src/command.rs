//! What one invocation is asked to do, and who may ask for it.
//!
//! The tool takes at most one argument. Without one it lists the devices;
//! with a help or version flag it prints a fixed text; anything else is the
//! identifier of the device to toggle. Toggling writes to files that only
//! root may write, so it is refused up front to anyone else.

use vstd::prelude::*;
use vstd::string::*;
use crate::text::same_text;

verus! {

/// The request that an invocation makes.
#[derive(Debug)]
pub enum Command {
    /// Print the usage text and touch no device.
    Help,
    /// Print the version and touch no device.
    Version,
    /// List every device.
    List,
    /// Toggle the first device with this identifier.
    Toggle(String),
}

/// A [`Command`] with its identifier as a plain sequence of characters.
pub enum CommandView {
    /// Print the usage text.
    Help,
    /// Print the version.
    Version,
    /// List every device.
    List,
    /// Toggle the first device with this identifier.
    Toggle(Seq<char>),
}

impl View for Command {
    type V = CommandView;

    open spec fn view(&self) -> CommandView {
        match self {
            Command::Help => CommandView::Help,
            Command::Version => CommandView::Version,
            Command::List => CommandView::List,
            Command::Toggle(id) => CommandView::Toggle(id@),
        }
    }
}

/// The request that the first argument stands for.
pub open spec fn command_of(argument: Option<Seq<char>>) -> CommandView {
    match argument {
        None => CommandView::List,
        Some(word) => if word == "-h"@ || word == "--help"@ {
            CommandView::Help
        } else if word == "-v"@ || word == "--version"@ {
            CommandView::Version
        } else {
            CommandView::Toggle(word)
        },
    }
}

/// The argument as characters.
pub open spec fn argument_text(argument: Option<&str>) -> Option<Seq<char>> {
    match argument {
        Some(word) => Some(word@),
        None => None,
    }
}

/// Reads the request off the first argument.
pub fn parse(argument: Option<&str>) -> (r: Command)
    ensures
        r@ == command_of(argument_text(argument)),
{
    match argument {
        None => Command::List,
        Some(word) => {
            if same_text(word, "-h") || same_text(word, "--help") {
                Command::Help
            } else if same_text(word, "-v") || same_text(word, "--version") {
                Command::Version
            } else {
                Command::Toggle(word.to_owned())
            }
        },
    }
}

/// A request is open to the user `uid` unless it toggles a device and the user is not root.
pub open spec fn permits(command: CommandView, uid: u32) -> bool {
    command is Toggle ==> uid == 0
}

/// The effective user id of this process.
///
/// Calls `nix::unistd::Uid::effective` and unwraps the id with
/// `Uid::as_raw`. The id belongs to the process, so nothing is claimed of it.
#[verifier::external_body]
fn effective_uid() -> u32 {
    nix::unistd::Uid::effective().as_raw()
}

/// Tells whether `uid` is root.
///
/// Wraps the id with `nix::unistd::Uid::from_raw` and calls `Uid::is_root`,
/// which compares the id with zero.
#[verifier::external_body]
fn uid_is_root(uid: u32) -> (r: bool)
    ensures
        r == (uid == 0),
{
    nix::unistd::Uid::from_raw(uid).is_root()
}

/// Tells whether the user `uid` may make the request.
pub fn is_permitted_to(command: &Command, uid: u32) -> (r: bool)
    ensures
        r == permits(command@, uid),
{
    match command {
        Command::Toggle(_) => uid_is_root(uid),
        _ => true,
    }
}

/// Tells whether the user that this process runs as may make the request.
///
/// Listing and the fixed texts are open to everyone. For a toggle the
/// answer is that of [`is_permitted_to`] for the effective user id.
pub fn is_permitted(command: &Command) -> (r: bool)
    ensures
        !(command@ is Toggle) ==> r,
{
    match command {
        Command::Toggle(_) => is_permitted_to(command, effective_uid()),
        _ => true,
    }
}

} // verus!
