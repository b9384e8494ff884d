//! Typed command declarations.

use crate::arguments::{CommandDataOption, CommandOption, CommandOptionView, Error};
use vstd::prelude::*;

verus! {

/// A typed command: a native type whose fields are the command's arguments.
///
/// The four relations say what an implementation promises of its methods. An
/// implementation that does not say promises nothing.
pub trait Command: Sized {
    /// Whether `options` is the option list of the command.
    open spec fn declares_options(options: Seq<CommandOptionView>) -> bool {
        true
    }

    /// Whether `result` is an outcome of decoding the raw arguments `data`.
    open spec fn decodes(data: Seq<CommandDataOption>, result: Result<Self, Error>) -> bool {
        true
    }

    /// Whether `description` is the description of the command.
    open spec fn declares_description(description: Seq<char>) -> bool {
        true
    }

    /// Whether `name` is the name of the command.
    open spec fn declares_name(name: Seq<char>) -> bool {
        true
    }

    /// Gets the options of the command, in the order of its fields.
    fn options() -> (options: Vec<CommandOption>)
        ensures
            Self::declares_options(options@.map_values(|option: CommandOption| option@)),
    ;

    /// Converts the raw arguments of an invocation into the command.
    fn from_command_data(data: Vec<CommandDataOption>) -> (result: Result<Self, Error>)
        ensures
            Self::decodes(data@, result),
    ;

    /// The description of the command as clients show it.
    fn description() -> (description: &'static str)
        ensures
            Self::declares_description(description@),
    ;

    /// The name of the command: the segments of its path, parted by spaces.
    fn name() -> (name: &'static str)
        ensures
            Self::declares_name(name@),
    ;
}

} // verus!
