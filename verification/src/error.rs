//! Errors of schema construction.

use vstd::prelude::*;

verus! {

/// A mistake in how commands or choices were declared. These are found when
/// a declaration is registered or the schema is exported, never while an
/// invocation is served.
#[derive(Debug, Clone, Copy, PartialEq, Eq, Structural)]
pub enum SchemaError {
    /// A choice list holds more entries than the platform accepts.
    TooManyChoices,
    /// Two choices of one list share a value.
    DuplicateChoiceValue,
    /// A command is already bound where the path needs a group.
    CommandInPath,
    /// A command holds subcommands and subcommand groups side by side.
    MixedSiblings,
    /// A command is nested deeper than command, group, subcommand.
    TooDeep,
}

} // verus!
