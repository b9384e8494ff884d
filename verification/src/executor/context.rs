//! Commands that are used from a context menu: one level of names, no
//! arguments.

use crate::executor::export::{CommandDescriptor, CommandDescriptorView, OptionDescriptor};
use crate::executor::response::{conclude, concluded, Failure, Response};
use crate::executor::names::{find, lemma_find, lemma_find_is_first};
use vstd::prelude::*;
use vstd::string::StringExecFns;

verus! {

/// The registry of context menu commands. `H` is what is kept for each
/// command to run it.
pub struct ContextCommands<H> {
    commands: Vec<(String, H)>,
}

/// The entries of a list, each by its name and what it holds.
pub open spec fn entry_views<H>(commands: Seq<(String, H)>) -> Seq<(Seq<char>, H)> {
    commands.map_values(|entry: (String, H)| (entry.0@, entry.1))
}

/// Whether no two entries bear the same name.
pub open spec fn distinct_names<H>(entries: Seq<(Seq<char>, H)>) -> bool {
    forall|i: int, j: int|
        0 <= i < j < entries.len() ==> (#[trigger] entries[i]).0 != (#[trigger] entries[j]).0
}

/// What `name` is bound to among the entries, if it is bound.
pub open spec fn bound<H>(entries: Seq<(Seq<char>, H)>, name: Seq<char>) -> Option<H> {
    match find(entries, name) {
        Some(i) => Some(entries[i].1),
        None => None,
    }
}

/// The entries after `name` was bound to `handler`: a binding of that name
/// is replaced where it stands, a new name is added at the end.
pub open spec fn with_binding<H>(entries: Seq<(Seq<char>, H)>, name: Seq<char>, handler: H) -> Seq<
    (Seq<char>, H),
> {
    match find(entries, name) {
        Some(i) => entries.update(i, (name, handler)),
        None => entries.push((name, handler)),
    }
}

/// The command that a context menu entry is exported as: its name, with
/// neither description nor options.
pub open spec fn context_command<H>(entry: (Seq<char>, H)) -> CommandDescriptorView {
    CommandDescriptorView { name: entry.0, description: Seq::empty(), options: Seq::empty() }
}

/// A name that was bound is bound to what it was last bound to.
pub proof fn lemma_binding_is_found<H>(entries: Seq<(Seq<char>, H)>, name: Seq<char>, handler: H)
    ensures
        bound(with_binding(entries, name, handler), name) == Some(handler),
{
    lemma_find_is_first(entries, name);
    let after = with_binding(entries, name, handler);
    match find(entries, name) {
        Some(i) => {
            assert forall|j: int| 0 <= j < i implies (#[trigger] after[j]).0 != name by {
                assert(after[j] == entries[j]);
            }
            lemma_find(after, name, Some(i));
        },
        None => {
            assert forall|j: int| 0 <= j < entries.len() implies (#[trigger] after[j]).0 != name by {
                assert(after[j] == entries[j]);
            }
            lemma_find(after, name, Some(entries.len() as int));
        },
    }
}

/// Binding one name leaves what every other name is bound to as it was.
pub proof fn lemma_binding_keeps_others<H>(
    entries: Seq<(Seq<char>, H)>,
    name: Seq<char>,
    handler: H,
    other: Seq<char>,
)
    requires
        other != name,
    ensures
        bound(with_binding(entries, name, handler), other) == bound(entries, other),
{
    lemma_find_is_first(entries, name);
    lemma_find_is_first(entries, other);
    let after = with_binding(entries, name, handler);
    match find(entries, other) {
        Some(k) => {
            assert(after[k] == entries[k]);
            assert forall|j: int| 0 <= j < k implies (#[trigger] after[j]).0 != other by {
                if find(entries, name) == Some(j) {
                } else {
                    assert(after[j] == entries[j]);
                }
            }
            lemma_find(after, other, Some(k));
        },
        None => {
            assert forall|j: int| 0 <= j < after.len() implies (#[trigger] after[j]).0 != other by {
                if j < entries.len() && find(entries, name) != Some(j) {
                    assert(after[j] == entries[j]);
                }
            }
            lemma_find(after, other, None);
        },
    }
}

/// Binding a name keeps the names distinct.
pub proof fn lemma_binding_keeps_distinct<H>(entries: Seq<(Seq<char>, H)>, name: Seq<char>, handler: H)
    requires
        distinct_names(entries),
    ensures
        distinct_names(with_binding(entries, name, handler)),
{
    lemma_find_is_first(entries, name);
    let after = with_binding(entries, name, handler);
    assert forall|a: int, b: int| 0 <= a < b < after.len() implies (#[trigger] after[a]).0 != (
    #[trigger] after[b]).0 by {
        match find(entries, name) {
            Some(i) => {
                assert(after[a].0 == entries[a].0);
                assert(after[b].0 == entries[b].0);
            },
            None => {
                assert(after[a] == entries[a]);
                if b < entries.len() {
                    assert(after[b] == entries[b]);
                }
            },
        }
    }
}

impl<H> View for ContextCommands<H> {
    type V = Seq<(Seq<char>, H)>;

    closed spec fn view(&self) -> Seq<(Seq<char>, H)> {
        entry_views(self.commands@)
    }
}

/// Finds the first entry that bears `name`.
fn position<H>(commands: &Vec<(String, H)>, name: &String) -> (found: Option<usize>)
    ensures
        match found {
            Some(i) => find(entry_views(commands@), name@) == Some(i as int) && i < commands.len(),
            None => find(entry_views(commands@), name@) is None,
        },
{
    let mut i: usize = 0;
    while i < commands.len()
        invariant
            i <= commands.len(),
            forall|j: int| 0 <= j < i ==> (#[trigger] entry_views(commands@)[j]).0 != name@,
        decreases commands.len() - i,
    {
        if commands[i].0 == *name {
            proof {
                lemma_find(entry_views(commands@), name@, Some(i as int));
            }
            return Some(i);
        }
        i += 1;
    }
    proof {
        lemma_find(entry_views(commands@), name@, None);
    }
    None
}

impl<H> ContextCommands<H> {
    #[verifier::type_invariant]
    spec fn well_formed(&self) -> bool {
        distinct_names(entry_views(self.commands@))
    }

    /// A registry without commands.
    pub fn new() -> (registry: Self)
        ensures
            registry@ == Seq::<(Seq<char>, H)>::empty(),
    {
        let registry = ContextCommands { commands: Vec::new() };
        assert(registry@ =~= Seq::<(Seq<char>, H)>::empty());
        registry
    }

    /// Registers a context menu command. What was registered under that
    /// name before is replaced.
    pub fn register(&mut self, command: &str, handler: H)
        ensures
            final(self)@ == with_binding(old(self)@, command@, handler),
            distinct_names(final(self)@),
    {
        proof {
            use_type_invariant(&*self);
            lemma_binding_keeps_distinct(self@, command@, handler);
        }
        let name = String::from_str(command);
        let mut commands: Vec<(String, H)> = Vec::new();
        std::mem::swap(&mut self.commands, &mut commands);
        let ghost before = entry_views(commands@);
        match position(&commands, &name) {
            Some(i) => {
                commands[i] = (name, handler);
                assert(entry_views(commands@) =~= before.update(i as int, (command@, handler)));
            },
            None => {
                commands.push((name, handler));
                assert(entry_views(commands@) =~= before.push((command@, handler)));
            },
        }
        self.commands = commands;
    }

    /// Gets what a context menu command was registered with, if the name is
    /// registered.
    pub fn get(&self, name: &str) -> (found: Option<&H>)
        ensures
            match found {
                Some(handler) => bound(self@, name@) == Some(*handler),
                None => bound(self@, name@) is None,
            },
            distinct_names(self@),
    {
        proof {
            use_type_invariant(self);
        }
        let key = String::from_str(name);
        match position(&self.commands, &key) {
            Some(i) => Some(&self.commands[i].1),
            None => None,
        }
    }

    /// Serves one invocation: finds the command registered under `name` and
    /// invokes what runs it, once, with the context and the shared state. A
    /// name that finds no command gives no response; a failure of the
    /// invocation gives the fallback response.
    pub fn execute<Context, State, R>(&self, name: &str, context: &Context, state: &State) -> (response:
        Option<Response<R>>) where H: Fn(&Context, &State) -> Result<R, String>
        requires
            bound(self@, name@) matches Some(handler) ==> call_requires(handler, (context, state)),
        ensures
            match bound(self@, name@) {
                Some(handler) => response matches Some(response) && exists|
                    result: Result<R, String>,
                |
                    call_ensures(handler, (context, state), result) && concluded(
                        match result {
                            Ok(reply) => Ok::<R, Failure>(reply),
                            Err(cause) => Err(Failure::Handler(cause)),
                        },
                        response,
                    ),
                None => response is None,
            },
    {
        match self.get(name) {
            Some(handler) => {
                let outcome = match handler(context, state) {
                    Ok(reply) => Ok(reply),
                    Err(cause) => Err(Failure::Handler(cause)),
                };
                Some(conclude(outcome))
            },
            None => None,
        }
    }

    /// Exports the registered commands, in the order in which their names
    /// were first registered: each with its name, an empty description and
    /// no options.
    pub fn build_commands(&self) -> (exported: Vec<CommandDescriptor>)
        ensures
            exported@.map_values(|command: CommandDescriptor| command@) == self@.map_values(
                |entry: (Seq<char>, H)| context_command(entry),
            ),
            distinct_names(self@),
    {
        proof {
            use_type_invariant(self);
        }
        let mut exported: Vec<CommandDescriptor> = Vec::new();
        let mut i: usize = 0;
        while i < self.commands.len()
            invariant
                i <= self.commands.len(),
                exported.len() == i,
                forall|j: int|
                    0 <= j < i ==> (#[trigger] exported[j])@ == context_command(self@[j]),
            decreases self.commands.len() - i,
        {
            let options: Vec<OptionDescriptor> = Vec::new();
            let command = CommandDescriptor {
                name: self.commands[i].0.clone(),
                description: String::new(),
                options,
            };
            assert(command@.options =~= Seq::empty());
            assert(self@[i as int] == (self.commands[i as int].0@, self.commands[i as int].1));
            exported.push(command);
            i += 1;
        }
        assert(exported@.map_values(|command: CommandDescriptor| command@) =~= self@.map_values(
            |entry: (Seq<char>, H)| context_command(entry),
        ));
        exported
    }
}

impl<H> Default for ContextCommands<H> {
    fn default() -> (registry: Self)
        ensures
            registry@ == Seq::<(Seq<char>, H)>::empty(),
    {
        ContextCommands::new()
    }
}

} // verus!
