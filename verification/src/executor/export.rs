//! The exported schema: what a command tree publishes of itself.
//!
//! Every child of the root becomes one command. A leaf becomes a flat
//! command with its arguments. A group becomes a command whose options are
//! its members: a leaf member is a subcommand, a group member is a
//! subcommand group whose own members must all be leaves.

use crate::arguments::{CommandOption, CommandOptionView};
use crate::error::SchemaError;
use crate::executor::names::{find, lemma_find_is_first};
use crate::executor::tree::{
    child_views, lemma_insert_then_lookup, lemma_node_view, option_views, CommandInfo,
    CommandInfoView, CommandTree, TreeView,
};
use vstd::prelude::*;
use vstd::string::StringExecFns;

verus! {

/// A subcommand: a command nested in another, with arguments of its own.
#[derive(Debug, PartialEq)]
pub struct SubCommand {
    pub name: String,
    pub description: String,
    pub options: Vec<CommandOption>,
}

/// A named group of subcommands.
#[derive(Debug, PartialEq)]
pub struct SubCommandGroup {
    pub name: String,
    pub description: String,
    pub subcommands: Vec<SubCommand>,
}

/// One entry of a command's option list.
#[derive(Debug, PartialEq)]
pub enum OptionDescriptor {
    Argument(CommandOption),
    SubCommand(SubCommand),
    SubCommandGroup(SubCommandGroup),
}

/// One exported command.
#[derive(Debug, PartialEq)]
pub struct CommandDescriptor {
    pub name: String,
    pub description: String,
    pub options: Vec<OptionDescriptor>,
}

/// Mathematical content of a [`SubCommand`].
pub ghost struct SubCommandView {
    pub name: Seq<char>,
    pub description: Seq<char>,
    pub options: Seq<CommandOptionView>,
}

/// Mathematical content of a [`SubCommandGroup`].
pub ghost struct SubCommandGroupView {
    pub name: Seq<char>,
    pub description: Seq<char>,
    pub subcommands: Seq<SubCommandView>,
}

/// Mathematical content of an [`OptionDescriptor`].
pub ghost enum OptionDescriptorView {
    Argument(CommandOptionView),
    SubCommand(SubCommandView),
    SubCommandGroup(SubCommandGroupView),
}

/// Mathematical content of a [`CommandDescriptor`].
pub ghost struct CommandDescriptorView {
    pub name: Seq<char>,
    pub description: Seq<char>,
    pub options: Seq<OptionDescriptorView>,
}

impl View for SubCommand {
    type V = SubCommandView;

    open spec fn view(&self) -> SubCommandView {
        SubCommandView {
            name: self.name@,
            description: self.description@,
            options: option_views(self.options@),
        }
    }
}

impl View for SubCommandGroup {
    type V = SubCommandGroupView;

    open spec fn view(&self) -> SubCommandGroupView {
        SubCommandGroupView {
            name: self.name@,
            description: self.description@,
            subcommands: self.subcommands@.map_values(|subcommand: SubCommand| subcommand@),
        }
    }
}

impl View for OptionDescriptor {
    type V = OptionDescriptorView;

    open spec fn view(&self) -> OptionDescriptorView {
        match self {
            OptionDescriptor::Argument(option) => OptionDescriptorView::Argument(option@),
            OptionDescriptor::SubCommand(subcommand) => OptionDescriptorView::SubCommand(subcommand@),
            OptionDescriptor::SubCommandGroup(group) => OptionDescriptorView::SubCommandGroup(group@),
        }
    }
}

impl View for CommandDescriptor {
    type V = CommandDescriptorView;

    open spec fn view(&self) -> CommandDescriptorView {
        CommandDescriptorView {
            name: self.name@,
            description: self.description@,
            options: self.options@.map_values(|option: OptionDescriptor| option@),
        }
    }
}

/// The commands of a list, each by its content.
pub open spec fn descriptor_views(commands: Seq<CommandDescriptor>) -> Seq<CommandDescriptorView> {
    commands.map_values(|command: CommandDescriptor| command@)
}

/// The description given to a group, which has none of its own.
pub open spec fn group_description() -> Seq<char> {
    "No description provided"@
}

/// Whether every child is a leaf.
pub open spec fn all_leaves<H>(children: Seq<(Seq<char>, TreeView<H>)>) -> bool {
    forall|i: int| 0 <= i < children.len() ==> (#[trigger] children[i]).1 is Leaf
}

/// Whether every child is a group.
pub open spec fn all_groups<H>(children: Seq<(Seq<char>, TreeView<H>)>) -> bool {
    forall|i: int| 0 <= i < children.len() ==> (#[trigger] children[i]).1 is Node
}

/// The subcommand that a named leaf stands for.
pub open spec fn subcommand<H>(entry: (Seq<char>, TreeView<H>)) -> SubCommandView
    recommends
        entry.1 is Leaf,
{
    SubCommandView {
        name: entry.0,
        description: entry.1->Leaf_0.description,
        options: entry.1->Leaf_0.options,
    }
}

/// The subcommand group that a named group of leaves stands for.
pub open spec fn subcommand_group<H>(entry: (Seq<char>, TreeView<H>)) -> SubCommandGroupView
    recommends
        entry.1 is Node,
{
    SubCommandGroupView {
        name: entry.0,
        description: group_description(),
        subcommands: entry.1->Node_0.map_values(|leaf: (Seq<char>, TreeView<H>)| subcommand(leaf)),
    }
}

/// The option that a member of a command stands for.
pub open spec fn member<H>(entry: (Seq<char>, TreeView<H>)) -> OptionDescriptorView {
    match entry.1 {
        TreeView::Leaf(_) => OptionDescriptorView::SubCommand(subcommand(entry)),
        TreeView::Node(_) => OptionDescriptorView::SubCommandGroup(subcommand_group(entry)),
    }
}

/// The command that a named child of the root stands for.
pub open spec fn command<H>(entry: (Seq<char>, TreeView<H>)) -> CommandDescriptorView {
    match entry.1 {
        TreeView::Leaf(info) => CommandDescriptorView {
            name: entry.0,
            description: info.description,
            options: info.options.map_values(
                |option: CommandOptionView| OptionDescriptorView::Argument(option),
            ),
        },
        TreeView::Node(members) => CommandDescriptorView {
            name: entry.0,
            description: group_description(),
            options: members.map_values(|entry: (Seq<char>, TreeView<H>)| member(entry)),
        },
    }
}

/// Whether some member is a group that holds a group.
pub open spec fn nests_too_deep<H>(members: Seq<(Seq<char>, TreeView<H>)>) -> bool {
    exists|i: int|
        0 <= i < members.len() && (#[trigger] members[i]).1 is Node && !all_leaves(
            members[i].1->Node_0,
        )
}

/// What keeps a child of the root from being exported, if anything does:
/// members of both kinds side by side, or else a member nested too deep.
pub open spec fn shape_error<H>(node: TreeView<H>) -> Option<SchemaError> {
    match node {
        TreeView::Leaf(_) => None,
        TreeView::Node(members) => if !all_leaves(members) && !all_groups(members) {
            Some(SchemaError::MixedSiblings)
        } else if nests_too_deep(members) {
            Some(SchemaError::TooDeep)
        } else {
            None
        },
    }
}

/// Whether `i` is the first child that cannot be exported.
pub open spec fn first_error_at<H>(children: Seq<(Seq<char>, TreeView<H>)>, i: int) -> bool {
    &&& 0 <= i < children.len()
    &&& shape_error(children[i].1) is Some
    &&& forall|j: int| 0 <= j < i ==> shape_error((#[trigger] children[j]).1) is None
}

impl<H> TreeView<H> {
    /// The exported schema of the tree rooted here: one command for each
    /// child, in their order, or the error of the first child that cannot be
    /// exported.
    pub open spec fn export(self) -> Result<Seq<CommandDescriptorView>, SchemaError> {
        let children = self.children();
        if exists|i: int| first_error_at(children, i) {
            let i = choose|i: int| first_error_at(children, i);
            Err(shape_error(children[i].1)->Some_0)
        } else {
            Ok(children.map_values(|entry: (Seq<char>, TreeView<H>)| command(entry)))
        }
    }
}

/// The arguments that a flat command was exported with, read back from its
/// option list.
pub open spec fn exported_arguments(command: CommandDescriptorView) -> Seq<CommandOptionView> {
    command.options.map_values(|option: OptionDescriptorView| option->Argument_0)
}

/// Whether `exported` is the flat command of `name` that is bound with
/// `info`: it bears the name and the description, and its options are the
/// arguments of `info`, one for one and in their order.
pub open spec fn exports_flat<H>(
    exported: CommandDescriptorView,
    name: Seq<char>,
    info: CommandInfoView<H>,
) -> bool {
    &&& exported.name == name
    &&& exported.description == info.description
    &&& exported.options == info.options.map_values(
        |option: CommandOptionView| OptionDescriptorView::Argument(option),
    )
    &&& exported_arguments(exported) == info.options
}

/// An export that succeeds holds one command for each child of the root, in
/// their order.
pub proof fn lemma_export_follows_children<H>(tree: TreeView<H>)
    requires
        tree.export() is Ok,
    ensures
        tree.export()->Ok_0.len() == tree.children().len(),
        forall|i: int|
            0 <= i < tree.children().len() ==> (#[trigger] tree.export()->Ok_0[i]) == command(
                tree.children()[i],
            ),
{
}

/// A flat command is exported under its name, with its description, and
/// with exactly the options it is bound with, in their order.
pub proof fn lemma_export_of_flat_command<H>(
    tree: TreeView<H>,
    name: Seq<char>,
    info: CommandInfoView<H>,
)
    requires
        tree.lookup(seq![name]) == Some(info),
        tree.export() is Ok,
    ensures
        find(tree.children(), name) matches Some(i) && 0 <= i < tree.export()->Ok_0.len()
            && exports_flat(tree.export()->Ok_0[i], name, info),
{
    let path = seq![name];
    lemma_find_is_first(tree.children(), name);
    let i = find(tree.children(), name)->Some_0;
    let entry = tree.children()[i];
    assert(entry.1.resolve(path.drop_first()) == Some(entry.1));
    let exported = tree.export()->Ok_0[i];
    assert(exported_arguments(exported) =~= info.options);
}

/// A flat command that was registered is exported with the options it was
/// registered with, whatever else the tree holds.
pub proof fn lemma_export_after_insert<H>(
    tree: TreeView<H>,
    name: Seq<char>,
    info: CommandInfoView<H>,
)
    requires
        tree is Node,
        tree.insert(seq![name], info).export() is Ok,
    ensures
        exists|i: int|
            0 <= i < tree.insert(seq![name], info).export()->Ok_0.len() && exports_flat(
                #[trigger] tree.insert(seq![name], info).export()->Ok_0[i],
                name,
                info,
            ),
{
    lemma_insert_then_lookup(tree, seq![name], info);
    let after = tree.insert(seq![name], info);
    lemma_export_of_flat_command(after, name, info);
    let i = find(after.children(), name)->Some_0;
    assert(exports_flat(after.export()->Ok_0[i], name, info));
}

/// Copies a list of options.
fn clone_options(options: &Vec<CommandOption>) -> (copy: Vec<CommandOption>)
    ensures
        option_views(copy@) == option_views(options@),
{
    let mut copy: Vec<CommandOption> = Vec::new();
    let mut i: usize = 0;
    while i < options.len()
        invariant
            i <= options.len(),
            copy.len() == i,
            forall|j: int| 0 <= j < i ==> copy[j]@ == options[j]@,
        decreases options.len() - i,
    {
        copy.push(options[i].clone());
        i += 1;
    }
    assert(option_views(copy@) =~= option_views(options@));
    copy
}

/// Describes a leaf as a subcommand.
fn describe_subcommand<H>(name: &String, info: &CommandInfo<H>) -> (described: SubCommand)
    ensures
        described@ == subcommand((name@, TreeView::Leaf(info@))),
{
    SubCommand {
        name: name.clone(),
        description: info.description.clone(),
        options: clone_options(&info.options),
    }
}

/// Describes a group below a command as a subcommand group, if all that
/// it holds are leaves.
fn describe_group<H>(name: &String, members: &Vec<(String, CommandTree<H>)>) -> (described: Result<
    SubCommandGroup,
    SchemaError,
>)
    ensures
        match described {
            Ok(group) => all_leaves(child_views(members@)) && group@ == subcommand_group(
                (name@, TreeView::Node(child_views(members@))),
            ),
            Err(error) => error == SchemaError::TooDeep && !all_leaves(child_views(members@)),
        },
{
    let ghost views = child_views(members@);
    let mut subcommands: Vec<SubCommand> = Vec::new();
    let mut i: usize = 0;
    while i < members.len()
        invariant
            i <= members.len(),
            views == child_views(members@),
            subcommands.len() == i,
            forall|j: int| 0 <= j < i ==> (#[trigger] views[j]).1 is Leaf,
            forall|j: int| 0 <= j < i ==> (#[trigger] subcommands[j])@ == subcommand(views[j]),
        decreases members.len() - i,
    {
        match &members[i].1 {
            CommandTree::Leaf(info) => {
                subcommands.push(describe_subcommand(&members[i].0, info));
            },
            CommandTree::Node(_) => {
                assert(views[i as int].1 is Node);
                return Err(SchemaError::TooDeep);
            },
        }
        i += 1;
    }
    let group = SubCommandGroup {
        name: name.clone(),
        description: String::from_str("No description provided"),
        subcommands,
    };
    assert(group@.subcommands =~= subcommand_group(
        (name@, TreeView::Node(views)),
    ).subcommands);
    Ok(group)
}

/// Describes a leaf below the root as a flat command.
fn describe_flat<H>(name: &String, info: &CommandInfo<H>) -> (described: CommandDescriptor)
    ensures
        described@ == command((name@, TreeView::Leaf(info@))),
{
    let mut options: Vec<OptionDescriptor> = Vec::new();
    let mut i: usize = 0;
    while i < info.options.len()
        invariant
            i <= info.options.len(),
            options.len() == i,
            forall|j: int|
                0 <= j < i ==> (#[trigger] options[j])@ == OptionDescriptorView::Argument(
                    info.options[j]@,
                ),
        decreases info.options.len() - i,
    {
        options.push(OptionDescriptor::Argument(info.options[i].clone()));
        i += 1;
    }
    let described = CommandDescriptor {
        name: name.clone(),
        description: info.description.clone(),
        options,
    };
    assert(described@.options =~= command((name@, TreeView::Leaf(info@))).options);
    described
}

/// Tells whether a group holds a leaf, and whether it holds a group.
fn kinds_of_members<H>(members: &Vec<(String, CommandTree<H>)>) -> (kinds: (bool, bool))
    ensures
        kinds.0 == !all_groups(child_views(members@)),
        kinds.1 == !all_leaves(child_views(members@)),
{
    let ghost views = child_views(members@);
    let mut leaf = false;
    let mut group = false;
    let mut i: usize = 0;
    while i < members.len()
        invariant
            i <= members.len(),
            views == child_views(members@),
            leaf == exists|j: int| 0 <= j < i && (#[trigger] views[j]).1 is Leaf,
            group == exists|j: int| 0 <= j < i && (#[trigger] views[j]).1 is Node,
        decreases members.len() - i,
    {
        match &members[i].1 {
            CommandTree::Leaf(_) => {
                assert(views[i as int].1 is Leaf);
                leaf = true;
            },
            CommandTree::Node(_) => {
                assert(views[i as int].1 is Node);
                group = true;
            },
        }
        i += 1;
    }
    (leaf, group)
}

/// Describes a child of the root as a command, if its shape allows it.
fn describe_command<H>(name: &String, node: &CommandTree<H>) -> (described: Result<
    CommandDescriptor,
    SchemaError,
>)
    ensures
        match described {
            Ok(described) => shape_error(node@) is None && described@ == command((name@, node@)),
            Err(error) => shape_error(node@) == Some(error),
        },
{
    match node {
        CommandTree::Leaf(info) => Ok(describe_flat(name, info)),
        CommandTree::Node(members) => {
            let ghost views = child_views(members@);
            proof {
                lemma_node_view::<H>(*members);
            }
            let (leaf, group) = kinds_of_members(members);
            if leaf && group {
                return Err(SchemaError::MixedSiblings);
            }
            let mut options: Vec<OptionDescriptor> = Vec::new();
            let mut i: usize = 0;
            while i < members.len()
                invariant
                    i <= members.len(),
                    views == child_views(members@),
                    node@ == TreeView::Node(views),
                    all_leaves(views) || all_groups(views),
                    options.len() == i,
                    forall|j: int|
                        0 <= j < i && (#[trigger] views[j]).1 is Node ==> all_leaves(
                            views[j].1->Node_0,
                        ),
                    forall|j: int| 0 <= j < i ==> (#[trigger] options[j])@ == member(views[j]),
                decreases members.len() - i,
            {
                match &members[i].1 {
                    CommandTree::Leaf(info) => {
                        options.push(
                            OptionDescriptor::SubCommand(describe_subcommand(&members[i].0, info)),
                        );
                    },
                    CommandTree::Node(inner) => {
                        proof {
                            lemma_node_view::<H>(*inner);
                        }
                        match describe_group(&members[i].0, inner) {
                            Ok(group) => {
                                options.push(OptionDescriptor::SubCommandGroup(group));
                            },
                            Err(error) => {
                                assert(views[i as int].1 is Node);
                                assert(nests_too_deep(views));
                                return Err(error);
                            },
                        }
                    },
                }
                i += 1;
            }
            let described = CommandDescriptor {
                name: name.clone(),
                description: String::from_str("No description provided"),
                options,
            };
            assert(described@.options =~= command((name@, node@)).options);
            Ok(described)
        },
    }
}

/// Exports the tree below a root group: one command for each child of the
/// root, in their order. Fails with the error of the first child whose shape
/// cannot be exported.
pub fn export_tree<H>(root: &CommandTree<H>) -> (exported: Result<Vec<CommandDescriptor>, SchemaError>)
    ensures
        match exported {
            Ok(commands) => root@.export() == Ok::<_, SchemaError>(descriptor_views(commands@)),
            Err(error) => root@.export() == Err::<Seq<CommandDescriptorView>, _>(error),
        },
{
    let mut commands: Vec<CommandDescriptor> = Vec::new();
    match root {
        CommandTree::Leaf(_) => {
            assert(descriptor_views(commands@) =~= root@.children().map_values(
                |entry: (Seq<char>, TreeView<H>)| command(entry),
            ));
            Ok(commands)
        },
        CommandTree::Node(children) => {
            let ghost views = child_views(children@);
            proof {
                lemma_node_view::<H>(*children);
            }
            let mut i: usize = 0;
            while i < children.len()
                invariant
                    i <= children.len(),
                    views == child_views(children@),
                    root@ == TreeView::Node(views),
                    commands.len() == i,
                    forall|j: int| 0 <= j < i ==> shape_error((#[trigger] views[j]).1) is None,
                    forall|j: int| 0 <= j < i ==> (#[trigger] commands[j])@ == command(views[j]),
                decreases children.len() - i,
            {
                match describe_command(&children[i].0, &children[i].1) {
                    Ok(described) => {
                        commands.push(described);
                    },
                    Err(error) => {
                        proof {
                            assert(views[i as int].1 == children[i as int].1@);
                            assert(first_error_at(views, i as int));
                            let k = choose|k: int| first_error_at(views, k);
                            if k < i {
                                assert(shape_error(views[k].1) is None);
                            }
                            if i < k {
                                assert(shape_error(views[i as int].1) is None);
                            }
                        }
                        return Err(error);
                    },
                }
                i += 1;
            }
            proof {
                if exists|k: int| first_error_at(views, k) {
                    let k = choose|k: int| first_error_at(views, k);
                    assert(shape_error(views[k].1) is None);
                }
                assert(descriptor_views(commands@) =~= views.map_values(
                    |entry: (Seq<char>, TreeView<H>)| command(entry),
                ));
            }
            Ok(commands)
        },
    }
}

} // verus!
