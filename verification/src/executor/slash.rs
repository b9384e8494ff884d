//! The executor of slash commands: the one place where commands are
//! registered, found again by name, and exported.

use crate::arguments::{CommandDataOption, CommandOption, CommandOptionView};
use crate::commands::Command;
use crate::error::SchemaError;
use crate::executor::export::{
    descriptor_views, export_tree, CommandDescriptor, CommandDescriptorView,
};
use crate::executor::path::{lemma_split, split, split_name, SEPARATOR};
use crate::executor::response::{conclude, concluded, Failure, Response};
use crate::executor::tree::{
    lemma_insert_keeps_other_paths, lemma_insert_then_lookup, option_views, CommandInfo,
    CommandInfoView, CommandTree, TreeView,
};
use vstd::prelude::*;
use vstd::string::StringExecFns;

verus! {

/// How a registration under `name` turns out: the entry is placed at the
/// path of the name, or, where a command is bound to a proper prefix of that
/// path, nothing changes and the registration fails.
pub open spec fn registration<H>(
    before: TreeView<H>,
    after: TreeView<H>,
    name: Seq<char>,
    info: CommandInfoView<H>,
    outcome: Result<(), SchemaError>,
) -> bool {
    let path = split(name, SEPARATOR);
    match outcome {
        Ok(_) => before.accepts(path) && after == before.insert(path, info),
        Err(error) => error == SchemaError::CommandInPath && !before.accepts(path) && after
            == before,
    }
}

/// A command that was registered is the one that its name finds, whatever
/// was registered under that name before.
pub proof fn lemma_registered_is_found<H>(
    before: TreeView<H>,
    after: TreeView<H>,
    name: Seq<char>,
    info: CommandInfoView<H>,
)
    requires
        registration(before, after, name, info, Ok(())),
    ensures
        after.lookup(split(name, SEPARATOR)) == Some(info),
{
    lemma_split(name, SEPARATOR);
    lemma_insert_then_lookup(before, split(name, SEPARATOR), info);
}

/// A registration leaves every name whose path does not begin with the path
/// of the registered name finding what it found before.
pub proof fn lemma_registration_keeps_others<H>(
    before: TreeView<H>,
    after: TreeView<H>,
    name: Seq<char>,
    info: CommandInfoView<H>,
    outcome: Result<(), SchemaError>,
    other: Seq<char>,
)
    requires
        registration(before, after, name, info, outcome),
        !split(name, SEPARATOR).is_prefix_of(split(other, SEPARATOR)),
    ensures
        after.lookup(split(other, SEPARATOR)) == before.lookup(split(other, SEPARATOR)),
{
    if outcome is Ok {
        lemma_insert_keeps_other_paths(
            before,
            split(name, SEPARATOR),
            info,
            split(other, SEPARATOR),
        );
    }
}

/// The registry of slash commands. `H` is what is kept for each command to
/// run it; the executor stores and hands it out, and never looks inside.
pub struct CommandExecutor<H> {
    commands: CommandTree<H>,
}

impl<H> View for CommandExecutor<H> {
    type V = TreeView<H>;

    closed spec fn view(&self) -> TreeView<H> {
        self.commands@
    }
}

impl<H> CommandExecutor<H> {
    /// The root is a group, and no group holds two children of one name.
    #[verifier::type_invariant]
    spec fn well_formed(&self) -> bool {
        self.commands@ is Node && self.commands@.distinct_names()
    }

    /// An executor without commands.
    pub fn new() -> (executor: Self)
        ensures
            executor@ == TreeView::<H>::empty(),
    {
        CommandExecutor { commands: CommandTree::new() }
    }

    /// Tells whether a command can be registered under `name`: whether no
    /// command is bound where the path of `name` needs a group.
    pub fn accepts(&self, name: &str) -> (free: bool)
        ensures
            free == self@.accepts(split(name@, SEPARATOR)),
            self@ is Node,
            self@.distinct_names(),
    {
        proof {
            use_type_invariant(self);
        }
        let path = split_name(name);
        self.commands.accepts(path.as_slice())
    }

    /// Registers a command under `name`, whose segments are parted by
    /// spaces. What was registered under that name before is replaced.
    /// Fails, and changes nothing, where a command is bound to a proper
    /// prefix of the path.
    pub fn register_entry(
        &mut self,
        name: &str,
        description: &str,
        options: Vec<CommandOption>,
        handler: H,
    ) -> (registered: Result<(), SchemaError>)
        ensures
            registration(
                old(self)@,
                final(self)@,
                name@,
                (CommandInfoView {
                    handler,
                    options: option_views(options@),
                    description: description@,
                }),
                registered,
            ),
            final(self)@ is Node,
            final(self)@.distinct_names(),
    {
        proof {
            use_type_invariant(&*self);
        }
        let path = split_name(name);
        if !self.commands.accepts(path.as_slice()) {
            return Err(SchemaError::CommandInPath);
        }
        let info = CommandInfo { handler, options, description: String::from_str(description) };
        let mut commands = CommandTree::new();
        std::mem::swap(&mut self.commands, &mut commands);
        commands.insert(path.as_slice(), info);
        self.commands = commands;
        Ok(())
    }

    /// Registers the typed command `C` with what runs it: under the name,
    /// with the description and the options that `C` declares.
    pub fn register<C: Command>(&mut self, handler: H) -> (registered: Result<(), SchemaError>)
        ensures
            exists|name: Seq<char>, description: Seq<char>, options: Seq<CommandOptionView>|
                C::declares_name(name) && C::declares_description(description)
                    && C::declares_options(options) && #[trigger] registration(
                    old(self)@,
                    final(self)@,
                    name,
                    (CommandInfoView { handler, options, description }),
                    registered,
                ),
            final(self)@ is Node,
            final(self)@.distinct_names(),
    {
        let name = C::name();
        let description = C::description();
        let options = C::options();
        let ghost info = CommandInfoView {
            handler,
            options: option_views(options@),
            description: description@,
        };
        let registered = self.register_entry(name, description, options, handler);
        assert(registration(old(self)@, self@, name@, info, registered));
        registered
    }

    /// Finds the command registered under `name`. There is one exactly when
    /// the path of `name` ends on a leaf: a name that is unknown, or that
    /// names a group, finds nothing.
    pub fn lookup(&self, name: &str) -> (found: Option<&CommandInfo<H>>)
        ensures
            match found {
                Some(info) => self@.lookup(split(name@, SEPARATOR)) == Some(info@),
                None => self@.lookup(split(name@, SEPARATOR)) is None,
            },
            self@ is Node,
            self@.distinct_names(),
    {
        proof {
            use_type_invariant(self);
        }
        let path = split_name(name);
        self.commands.get(path.as_slice())
    }

    /// Serves one invocation: finds the command registered under `name` and
    /// invokes what runs it, once, with the context, the raw arguments and
    /// the shared state. A name that finds no command gives no response;
    /// a failure of the invocation gives the fallback response.
    pub fn execute<Context, State, R>(
        &self,
        name: &str,
        context: &Context,
        options: Vec<CommandDataOption>,
        state: &State,
    ) -> (response: Option<Response<R>>) where
        H: Fn(&Context, Vec<CommandDataOption>, &State) -> Result<R, Failure>,

        requires
            self@.lookup(split(name@, SEPARATOR)) matches Some(info) ==> call_requires(
                info.handler,
                (context, options, state),
            ),
        ensures
            match self@.lookup(split(name@, SEPARATOR)) {
                Some(info) => response matches Some(response) && exists|
                    outcome: Result<R, Failure>,
                |
                    call_ensures(info.handler, (context, options, state), outcome) && concluded(
                        outcome,
                        response,
                    ),
                None => response is None,
            },
    {
        match self.lookup(name) {
            Some(info) => {
                let outcome = (info.handler)(context, options, state);
                Some(conclude(outcome))
            },
            None => None,
        }
    }

    /// Exports the registered commands, in the order in which their
    /// top-level names were first registered.
    pub fn build_commands(&self) -> (exported: Result<Vec<CommandDescriptor>, SchemaError>)
        ensures
            match exported {
                Ok(commands) => self@.export() == Ok::<_, SchemaError>(descriptor_views(commands@)),
                Err(error) => self@.export() == Err::<Seq<CommandDescriptorView>, _>(error),
            },
            self@ is Node,
            self@.distinct_names(),
    {
        proof {
            use_type_invariant(self);
        }
        export_tree(&self.commands)
    }
}

impl<H> Default for CommandExecutor<H> {
    fn default() -> (executor: Self)
        ensures
            executor@ == TreeView::<H>::empty(),
    {
        CommandExecutor::new()
    }
}

} // verus!
