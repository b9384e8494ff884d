//! What an invocation comes to: the handler's reply, or the one uniform
//! error response that stands for every failure.

use crate::arguments::{CommandDataOption, Error};
use crate::commands::Command;
use vstd::prelude::*;
use vstd::string::StringExecFns;

verus! {

/// Why an invocation that reached a command gave no reply.
#[derive(Debug, PartialEq)]
pub enum Failure {
    /// The raw arguments could not be decoded; the handler was not invoked.
    Decode(Error),
    /// The handler itself failed; the text is its rendered cause.
    Handler(String),
}

/// The fallback error response: one text message, meant for the invoker
/// alone.
#[derive(Debug, PartialEq)]
pub struct ErrorEnvelope {
    pub message: String,
}

/// The outcome of an invocation that reached a command.
#[derive(Debug, PartialEq)]
pub enum Response<R> {
    /// What the handler replied.
    Reply(R),
    /// The fallback that stands for a failure.
    Fallback(ErrorEnvelope),
}

/// The message that stands for a failure.
pub open spec fn failure_message(failure: Failure) -> Seq<char> {
    match failure {
        Failure::Decode(_) => "Failed to parse command data."@,
        Failure::Handler(cause) => "An error occurred: "@ + cause@,
    }
}

/// The response that an outcome comes to: a reply is handed on, a failure
/// becomes the fallback with its message.
pub open spec fn concluded<R>(outcome: Result<R, Failure>, response: Response<R>) -> bool {
    match outcome {
        Ok(reply) => response == Response::Reply(reply),
        Err(failure) => response matches Response::Fallback(envelope) && envelope.message@
            == failure_message(failure),
    }
}

/// Renders a failure as the fallback error response.
pub fn envelope(failure: &Failure) -> (envelope: ErrorEnvelope)
    ensures
        envelope.message@ == failure_message(*failure),
{
    match failure {
        Failure::Decode(_) => ErrorEnvelope {
            message: String::from_str("Failed to parse command data."),
        },
        Failure::Handler(cause) => ErrorEnvelope {
            message: String::from_str("An error occurred: ").concat(cause.as_str()),
        },
    }
}

/// Turns the outcome of an invocation into its response, so that no failure
/// goes past this point.
pub fn conclude<R>(outcome: Result<R, Failure>) -> (response: Response<R>)
    ensures
        concluded(outcome, response),
{
    match outcome {
        Ok(reply) => Response::Reply(reply),
        Err(failure) => Response::Fallback(envelope(&failure)),
    }
}

/// How running a typed handler on raw arguments turns out: where the
/// arguments decode, as the handler's own outcome; where they do not, as
/// the failure of decoding.
pub open spec fn handled<C: Command, Context, State, R, F: Fn(C, &Context, &State) -> Result<R, String>>(
    handler: &F,
    context: &Context,
    data: Seq<CommandDataOption>,
    state: &State,
    outcome: Result<R, Failure>,
) -> bool {
    exists|decoded: Result<C, Error>|
        {
            &&& C::decodes(data, decoded)
            &&& match decoded {
                Ok(command) => exists|result: Result<R, String>|
                    {
                        &&& call_ensures(handler, (command, context, state), result)
                        &&& outcome == match result {
                            Ok(reply) => Ok::<R, Failure>(reply),
                            Err(cause) => Err(Failure::Handler(cause)),
                        }
                    },
                Err(error) => outcome == Err::<R, Failure>(Failure::Decode(error)),
            }
        }
}

/// Runs a typed handler on the raw arguments of an invocation: the
/// arguments are decoded into the command, and the handler is invoked with
/// it. Where decoding fails the handler is not invoked.
pub fn handle<C, Context, State, R, F>(
    handler: &F,
    context: &Context,
    data: Vec<CommandDataOption>,
    state: &State,
) -> (outcome: Result<R, Failure>) where C: Command, F: Fn(C, &Context, &State) -> Result<R, String>
    requires
        forall|command: C| call_requires(handler, (command, context, state)),
    ensures
        handled::<C, Context, State, R, F>(handler, context, data@, state, outcome),
{
    match C::from_command_data(data) {
        Ok(command) => match handler(command, context, state) {
            Ok(reply) => Ok(reply),
            Err(cause) => Err(Failure::Handler(cause)),
        },
        Err(error) => Err(Failure::Decode(error)),
    }
}

} // verus!
