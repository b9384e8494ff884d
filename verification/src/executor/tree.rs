//! The command tree: a path-indexed tree of registered commands.
//!
//! A node is either a group, holding named children in the order in which
//! their names were first bound, or a leaf bound to one registered entry.

use crate::arguments::{CommandOption, CommandOptionView};
use crate::executor::names::{find, lemma_find, lemma_find_is_first};
use vstd::prelude::*;
use vstd::slice::slice_subrange;
use vstd::string::StringExecFns;

verus! {

/// One registered command: its handler, its options in declaration order,
/// and its description.
pub struct CommandInfo<H> {
    pub handler: H,
    pub options: Vec<CommandOption>,
    pub description: String,
}

/// Mathematical content of a [`CommandInfo`].
pub ghost struct CommandInfoView<H> {
    pub handler: H,
    pub options: Seq<CommandOptionView>,
    pub description: Seq<char>,
}

/// The options of a list, each by its content.
pub open spec fn option_views(options: Seq<CommandOption>) -> Seq<CommandOptionView> {
    options.map_values(|option: CommandOption| option@)
}

impl<H> View for CommandInfo<H> {
    type V = CommandInfoView<H>;

    open spec fn view(&self) -> CommandInfoView<H> {
        CommandInfoView {
            handler: self.handler,
            options: option_views(self.options@),
            description: self.description@,
        }
    }
}

/// A node of the command tree.
pub enum CommandTree<H> {
    /// A group: its children by name.
    Node(Vec<(String, CommandTree<H>)>),
    /// A dispatchable command.
    Leaf(CommandInfo<H>),
}

/// Mathematical content of a [`CommandTree`].
pub ghost enum TreeView<H> {
    Node(Seq<(Seq<char>, TreeView<H>)>),
    Leaf(CommandInfoView<H>),
}

/// The segments of a path, each as a sequence of characters.
pub open spec fn segments(path: Seq<String>) -> Seq<Seq<char>> {
    path.map_values(|segment: String| segment@)
}

impl<H> TreeView<H> {
    /// A group without children.
    pub open spec fn empty() -> TreeView<H> {
        TreeView::Node(Seq::empty())
    }

    /// The children of a group, in their order; a leaf has none.
    pub open spec fn children(self) -> Seq<(Seq<char>, TreeView<H>)> {
        match self {
            TreeView::Node(children) => children,
            TreeView::Leaf(_) => Seq::empty(),
        }
    }

    /// The node reached by walking `path` from this node, if every segment
    /// names a child.
    pub open spec fn resolve(self, path: Seq<Seq<char>>) -> Option<TreeView<H>>
        decreases path.len(),
    {
        if path.len() == 0 {
            Some(self)
        } else {
            match self {
                TreeView::Leaf(_) => None,
                TreeView::Node(children) => match find(children, path[0]) {
                    Some(i) => children[i].1.resolve(path.drop_first()),
                    None => None,
                },
            }
        }
    }

    /// The entry bound at `path`: there is one exactly when the path is not
    /// empty and ends on a leaf.
    pub open spec fn lookup(self, path: Seq<Seq<char>>) -> Option<CommandInfoView<H>> {
        if path.len() == 0 {
            None
        } else {
            match self.resolve(path) {
                Some(TreeView::Leaf(info)) => Some(info),
                _ => None,
            }
        }
    }

    /// Whether an entry can be placed at `path`: this node is a group, and no
    /// segment but the last leads into a leaf.
    pub open spec fn accepts(self, path: Seq<Seq<char>>) -> bool
        decreases path.len(),
    {
        match self {
            TreeView::Leaf(_) => false,
            TreeView::Node(children) => path.len() <= 1 || match find(children, path[0]) {
                Some(i) => children[i].1.accepts(path.drop_first()),
                None => true,
            },
        }
    }

    /// The tree after `info` was placed at `path`: groups are created for the
    /// segments before the last where they are missing, and whatever was
    /// bound at `path` is replaced. An empty path changes nothing.
    pub open spec fn insert(self, path: Seq<Seq<char>>, info: CommandInfoView<H>) -> TreeView<H>
        decreases path.len(),
    {
        match self {
            TreeView::Leaf(_) => self,
            TreeView::Node(children) => if path.len() == 0 {
                self
            } else {
                match find(children, path[0]) {
                    Some(i) => {
                        let child = if path.len() == 1 {
                            TreeView::Leaf(info)
                        } else {
                            children[i].1.insert(path.drop_first(), info)
                        };
                        TreeView::Node(children.update(i, (path[0], child)))
                    },
                    None => {
                        let child = if path.len() == 1 {
                            TreeView::Leaf(info)
                        } else {
                            Self::empty().insert(path.drop_first(), info)
                        };
                        TreeView::Node(children.push((path[0], child)))
                    },
                }
            },
        }
    }

    /// Whether no group of the tree holds two children of the same name.
    pub open spec fn distinct_names(self) -> bool
        decreases self,
    {
        match self {
            TreeView::Leaf(_) => true,
            TreeView::Node(children) => {
                &&& forall|i: int, j: int|
                    0 <= i < j < children.len() ==> (#[trigger] children[i]).0 != (#[trigger] children[j]).0
                &&& forall|i: int|
                    0 <= i < children.len() ==> (#[trigger] children[i]).1.distinct_names()
            },
        }
    }
}

/// The text that a tree is shown as: `Leaf` for a leaf, and for a group
/// `Node { ` and `}` around its children, each as its name, `: `, the text
/// of the child and `, `.
pub open spec fn rendering<H>(tree: TreeView<H>) -> Seq<char>
    decreases tree, tree.children().len() + 1,
{
    match tree {
        TreeView::Leaf(_) => "Leaf"@,
        TreeView::Node(children) => "Node { "@ + rendered_children(tree, children.len()) + "}"@,
    }
}

/// The text of the first `count` children of a group.
pub open spec fn rendered_children<H>(tree: TreeView<H>, count: nat) -> Seq<char>
    decreases tree, count,
{
    if count == 0 || count > tree.children().len() {
        Seq::empty()
    } else {
        let child = tree.children()[count - 1];
        rendered_children(tree, (count - 1) as nat) + child.0 + ": "@ + rendering(child.1) + ", "@
    }
}

/// The content of a tree.
pub open spec fn tree_view<H>(tree: CommandTree<H>) -> TreeView<H>
    decreases tree,
{
    match tree {
        CommandTree::Node(children) => TreeView::Node(
            Seq::new(
                children@.len(),
                |i: int|
                    if 0 <= i < children@.len() {
                        (children@[i].0@, tree_view(children@[i].1))
                    } else {
                        (Seq::empty(), TreeView::empty())
                    },
            ),
        ),
        CommandTree::Leaf(info) => TreeView::Leaf(info@),
    }
}

impl<H> View for CommandTree<H> {
    type V = TreeView<H>;

    open spec fn view(&self) -> TreeView<H> {
        tree_view(*self)
    }
}

/// The children of a group, each by its name and content.
pub open spec fn child_views<H>(children: Seq<(String, CommandTree<H>)>) -> Seq<(Seq<char>, TreeView<H>)> {
    Seq::new(children.len(), |i: int| (children[i].0@, children[i].1@))
}

/// The content of a group is that of its children.
pub proof fn lemma_node_view<H>(children: Vec<(String, CommandTree<H>)>)
    ensures
        CommandTree::Node(children)@ == TreeView::Node(child_views(children@)),
{
    assert(CommandTree::Node(children)@->Node_0 =~= child_views(children@));
}

/// Placing an entry keeps the names within every group distinct.
pub proof fn lemma_insert_keeps_distinct_names<H>(
    tree: TreeView<H>,
    path: Seq<Seq<char>>,
    info: CommandInfoView<H>,
)
    requires
        tree.distinct_names(),
    ensures
        tree.insert(path, info).distinct_names(),
    decreases path.len(),
{
    match tree {
        TreeView::Leaf(_) => {},
        TreeView::Node(children) => {
            if path.len() > 0 {
                lemma_find_is_first(children, path[0]);
                match find(children, path[0]) {
                    Some(i) => {
                        let child = if path.len() == 1 {
                            TreeView::Leaf(info)
                        } else {
                            children[i].1.insert(path.drop_first(), info)
                        };
                        if path.len() > 1 {
                            lemma_insert_keeps_distinct_names(children[i].1, path.drop_first(), info);
                        }
                        let after = children.update(i, (path[0], child));
                        assert forall|a: int, b: int| 0 <= a < b < after.len() implies (
                        #[trigger] after[a]).0 != (#[trigger] after[b]).0 by {
                            assert(after[a].0 == children[a].0);
                            assert(after[b].0 == children[b].0);
                        }
                        assert forall|a: int| 0 <= a < after.len() implies (
                        #[trigger] after[a]).1.distinct_names() by {
                            if a != i {
                                assert(after[a] == children[a]);
                            }
                        }
                    },
                    None => {
                        let child = if path.len() == 1 {
                            TreeView::Leaf(info)
                        } else {
                            TreeView::<H>::empty().insert(path.drop_first(), info)
                        };
                        if path.len() > 1 {
                            lemma_insert_keeps_distinct_names(
                                TreeView::<H>::empty(),
                                path.drop_first(),
                                info,
                            );
                        }
                        let after = children.push((path[0], child));
                        assert forall|a: int, b: int| 0 <= a < b < after.len() implies (
                        #[trigger] after[a]).0 != (#[trigger] after[b]).0 by {
                            assert(after[a] == children[a]);
                            if b < children.len() {
                                assert(after[b] == children[b]);
                            }
                        }
                        assert forall|a: int| 0 <= a < after.len() implies (
                        #[trigger] after[a]).1.distinct_names() by {
                            if a < children.len() {
                                assert(after[a] == children[a]);
                            }
                        }
                    },
                }
            }
        },
    }
}

/// An entry placed at a path is the one that a lookup of that path gives,
/// whatever was bound there before.
pub proof fn lemma_insert_then_lookup<H>(
    tree: TreeView<H>,
    path: Seq<Seq<char>>,
    info: CommandInfoView<H>,
)
    requires
        tree.accepts(path),
        path.len() > 0,
    ensures
        tree.insert(path, info).lookup(path) == Some(info),
    decreases path.len(),
{
    let children = tree->Node_0;
    lemma_find_is_first(children, path[0]);
    let rest = path.drop_first();
    match find(children, path[0]) {
        Some(i) => {
            let child = if path.len() == 1 {
                TreeView::Leaf(info)
            } else {
                children[i].1.insert(rest, info)
            };
            let after = children.update(i, (path[0], child));
            assert forall|j: int| 0 <= j < i implies (#[trigger] after[j]).0 != path[0] by {
                assert(after[j] == children[j]);
            }
            lemma_find(after, path[0], Some(i));
            if path.len() > 1 {
                lemma_insert_then_lookup(children[i].1, rest, info);
            }
        },
        None => {
            let child = if path.len() == 1 {
                TreeView::Leaf(info)
            } else {
                TreeView::<H>::empty().insert(rest, info)
            };
            let after = children.push((path[0], child));
            assert forall|j: int| 0 <= j < children.len() implies (#[trigger] after[j]).0 != path[0] by {
                assert(after[j] == children[j]);
            }
            lemma_find(after, path[0], Some(children.len() as int));
            if path.len() > 1 {
                lemma_find::<H>(Seq::empty(), rest[0], None);
                lemma_insert_then_lookup(TreeView::<H>::empty(), rest, info);
            }
        },
    }
}

/// Placing an entry at one path leaves every path that does not begin with
/// it bound as it was.
pub proof fn lemma_insert_keeps_other_paths<H>(
    tree: TreeView<H>,
    path: Seq<Seq<char>>,
    info: CommandInfoView<H>,
    other: Seq<Seq<char>>,
)
    requires
        !path.is_prefix_of(other),
    ensures
        tree.insert(path, info).lookup(other) == tree.lookup(other),
    decreases path.len(),
{
    if path.len() == 0 {
        assert(path.is_prefix_of(other)) by {
            assert(other.subrange(0, 0) =~= path);
        }
    } else if other.len() > 0 {
        match tree {
            TreeView::Leaf(_) => {},
            TreeView::Node(children) => {
                lemma_find_is_first(children, path[0]);
                lemma_find_is_first(children, other[0]);
                let rest = path.drop_first();
                let other_rest = other.drop_first();
                let child = if path.len() == 1 {
                    TreeView::Leaf(info)
                } else {
                    match find(children, path[0]) {
                        Some(i) => children[i].1.insert(rest, info),
                        None => TreeView::<H>::empty().insert(rest, info),
                    }
                };
                let after = match find(children, path[0]) {
                    Some(i) => children.update(i, (path[0], child)),
                    None => children.push((path[0], child)),
                };
                assert(tree.insert(path, info) == TreeView::Node(after));
                if other[0] != path[0] {
                    match find(children, other[0]) {
                        Some(k) => {
                            assert(after[k] == children[k]);
                            assert forall|j: int| 0 <= j < k implies (#[trigger] after[j]).0
                                != other[0] by {
                                if find(children, path[0]) != Some(j) {
                                    assert(after[j] == children[j]);
                                }
                            }
                            lemma_find(after, other[0], Some(k));
                        },
                        None => {
                            assert forall|j: int| 0 <= j < after.len() implies (#[trigger] after[j]).0
                                != other[0] by {
                                if j < children.len() && find(children, path[0]) != Some(j) {
                                    assert(after[j] == children[j]);
                                }
                            }
                            lemma_find(after, other[0], None);
                        },
                    }
                } else {
                    if path.len() == 1 {
                        assert(path.is_prefix_of(other)) by {
                            assert(other.subrange(0, 1) =~= path);
                        }
                    } else {
                        assert(!rest.is_prefix_of(other_rest)) by {
                            if rest.is_prefix_of(other_rest) {
                                assert(other.subrange(0, path.len() as int) =~= path) by {
                                    assert(other_rest.subrange(0, rest.len() as int) == rest);
                                    assert forall|j: int| 0 <= j < path.len() implies other.subrange(
                                        0,
                                        path.len() as int,
                                    )[j] == path[j] by {
                                        if j > 0 {
                                            assert(other_rest.subrange(0, rest.len() as int)[j - 1]
                                                == rest[j - 1]);
                                        }
                                    }
                                }
                            }
                        }
                        match find(children, path[0]) {
                            Some(i) => {
                                assert forall|j: int| 0 <= j < i implies (#[trigger] after[j]).0
                                    != path[0] by {
                                    assert(after[j] == children[j]);
                                }
                                lemma_find(after, path[0], Some(i));
                                lemma_insert_keeps_other_paths(children[i].1, rest, info, other_rest);
                                lemma_insert_keeps_kind(children[i].1, rest, info);
                            },
                            None => {
                                assert forall|j: int| 0 <= j < children.len() implies (
                                #[trigger] after[j]).0 != path[0] by {
                                    assert(after[j] == children[j]);
                                }
                                lemma_find(after, path[0], Some(children.len() as int));
                                lemma_insert_keeps_other_paths(
                                    TreeView::<H>::empty(),
                                    rest,
                                    info,
                                    other_rest,
                                );
                                lemma_insert_keeps_kind(TreeView::<H>::empty(), rest, info);
                                lemma_empty_binds_nothing::<H>(other_rest);
                            },
                        }
                    }
                }
            },
        }
    }
}

/// Placing an entry below a node leaves a leaf as it is and a group a group.
pub proof fn lemma_insert_keeps_kind<H>(tree: TreeView<H>, path: Seq<Seq<char>>, info: CommandInfoView<H>)
    ensures
        tree is Leaf ==> tree.insert(path, info) == tree,
        tree is Node ==> tree.insert(path, info) is Node,
{
}

/// A group without children binds no entry and resolves only the empty path.
pub proof fn lemma_empty_binds_nothing<H>(path: Seq<Seq<char>>)
    ensures
        TreeView::<H>::empty().lookup(path) is None,
        path.len() > 0 ==> TreeView::<H>::empty().resolve(path) is None,
{
    if path.len() > 0 {
        lemma_find::<TreeView<H>>(Seq::empty(), path[0], None);
    }
}

/// A path along which some segment names no child binds no entry.
pub proof fn lemma_lookup_of_missing_path<H>(tree: TreeView<H>, path: Seq<Seq<char>>)
    requires
        tree.resolve(path) is None,
    ensures
        tree.lookup(path) is None,
{
}

/// A path that ends on a group binds no entry, whatever the group holds.
pub proof fn lemma_lookup_of_group<H>(tree: TreeView<H>, path: Seq<Seq<char>>)
    requires
        tree.resolve(path) matches Some(node) && node is Node,
    ensures
        tree.lookup(path) is None,
{
}

/// Finds the first child that bears `name`.
fn find_child<H>(children: &Vec<(String, CommandTree<H>)>, name: &String) -> (found: Option<usize>)
    ensures
        match found {
            Some(i) => find(child_views(children@), name@) == Some(i as int) && i < children.len(),
            None => find(child_views(children@), name@) is None,
        },
{
    let mut i: usize = 0;
    while i < children.len()
        invariant
            i <= children.len(),
            forall|j: int| 0 <= j < i ==> (#[trigger] child_views(children@)[j]).0 != name@,
        decreases children.len() - i,
    {
        if children[i].0 == *name {
            proof {
                lemma_find(child_views(children@), name@, Some(i as int));
            }
            return Some(i);
        }
        i += 1;
    }
    proof {
        lemma_find(child_views(children@), name@, None);
    }
    None
}

impl<H> Default for CommandTree<H> {
    fn default() -> (tree: Self)
        ensures
            tree@ == TreeView::<H>::empty(),
    {
        CommandTree::new()
    }
}

impl<H> CommandTree<H> {
    /// A group without children.
    pub fn new() -> (tree: Self)
        ensures
            tree@ == TreeView::<H>::empty(),
    {
        let tree = CommandTree::Node(Vec::new());
        proof {
            lemma_node_view::<H>(tree->Node_0);
            assert(child_views(tree->Node_0@) =~= Seq::empty());
        }
        tree
    }

    /// Looks up the entry bound at `path`.
    pub fn get<'a>(&'a self, path: &[String]) -> (found: Option<&'a CommandInfo<H>>)
        ensures
            match found {
                Some(info) => self@.lookup(segments(path@)) == Some(info@),
                None => self@.lookup(segments(path@)) is None,
            },
        decreases path.len(),
    {
        match self {
            CommandTree::Node(children) => {
                proof {
                    lemma_node_view::<H>(*children);
                }
                if path.len() == 0 {
                    return None;
                }
                let rest = slice_subrange(path, 1, path.len());
                assert(segments(path@)[0] == path[0]@);
                assert(segments(rest@) == segments(path@).drop_first());
                match find_child(children, &path[0]) {
                    None => None,
                    Some(i) => {
                        let child = &children[i].1;
                        assert(child_views(children@)[i as int].1 == child@);
                        if path.len() == 1 {
                            match child {
                                CommandTree::Leaf(info) => Some(info),
                                CommandTree::Node(_) => None,
                            }
                        } else {
                            let found = child.get(rest);
                            assert(child@.lookup(segments(rest@)) == match child@.resolve(
                                segments(rest@),
                            ) {
                                Some(TreeView::Leaf(info)) => Some(info),
                                _ => None,
                            });
                            found
                        }
                    },
                }
            },
            CommandTree::Leaf(_) => None,
        }
    }

    /// Shows the shape of the tree as text.
    pub fn render(&self) -> (text: String)
        ensures
            text@ == rendering(self@),
        decreases self,
    {
        match self {
            CommandTree::Leaf(_) => String::from_str("Leaf"),
            CommandTree::Node(children) => {
                proof {
                    lemma_node_view::<H>(*children);
                }
                let mut text = String::from_str("Node { ");
                let mut i: usize = 0;
                while i < children.len()
                    invariant
                        i <= children.len(),
                        self@ == TreeView::Node(child_views(children@)),
                        *self == CommandTree::Node(*children),
                        text@ == "Node { "@ + rendered_children(self@, i as nat),
                    decreases children.len() - i,
                {
                    let ghost before = text@;
                    assert(child_views(children@)[i as int] == (
                        children[i as int].0@,
                        children[i as int].1@,
                    ));
                    text.append(children[i].0.as_str());
                    text.append(": ");
                    let child = children[i].1.render();
                    text.append(child.as_str());
                    text.append(", ");
                    assert(text@ == "Node { "@ + rendered_children(self@, (i + 1) as nat)) by {
                        let shown = rendered_children(self@, i as nat);
                        let name = children[i as int].0@;
                        assert(text@ == ((("Node { "@ + shown) + name + ": "@) + child@) + ", "@);
                        assert(text@ =~= "Node { "@ + (shown + name + ": "@ + child@ + ", "@));
                    }
                    i += 1;
                }
                text.append("}");
                text
            },
        }
    }

    /// Tells whether an entry can be bound at `path`.
    pub fn accepts(&self, path: &[String]) -> (free: bool)
        ensures
            free == self@.accepts(segments(path@)),
        decreases path.len(),
    {
        match self {
            CommandTree::Node(children) => {
                proof {
                    lemma_node_view::<H>(*children);
                }
                if path.len() <= 1 {
                    return true;
                }
                let rest = slice_subrange(path, 1, path.len());
                assert(segments(rest@) == segments(path@).drop_first());
                match find_child(children, &path[0]) {
                    None => true,
                    Some(i) => {
                        assert(child_views(children@)[i as int].1 == children[i as int].1@);
                        children[i].1.accepts(rest)
                    },
                }
            },
            CommandTree::Leaf(_) => false,
        }
    }

    /// Binds `info` at `path`, creating the groups on the way that are
    /// missing and replacing what was bound there. An empty path changes
    /// nothing.
    pub fn insert(&mut self, path: &[String], info: CommandInfo<H>)
        requires
            old(self)@.accepts(segments(path@)),
        ensures
            final(self)@ == old(self)@.insert(segments(path@), info@),
            old(self)@.distinct_names() ==> final(self)@.distinct_names(),
        decreases path.len(),
    {
        proof {
            if self@.distinct_names() {
                lemma_insert_keeps_distinct_names(self@, segments(path@), info@);
            }
        }
        match self {
            CommandTree::Node(children) => {
                let ghost before = child_views(children@);
                proof {
                    lemma_node_view::<H>(*children);
                }
                if path.len() == 0 {
                    return ;
                }
                let ghost name = segments(path@)[0];
                let rest = slice_subrange(path, 1, path.len());
                assert(segments(rest@) == segments(path@).drop_first());
                let found = find_child(children, &path[0]);
                if path.len() == 1 {
                    match found {
                        Some(i) => {
                            children[i].1 = CommandTree::Leaf(info);
                            proof {
                                lemma_node_view::<H>(*children);
                                assert(child_views(children@) =~= before.update(
                                    i as int,
                                    (name, TreeView::Leaf(info@)),
                                ));
                            }
                        },
                        None => {
                            children.push((path[0].clone(), CommandTree::Leaf(info)));
                            proof {
                                lemma_node_view::<H>(*children);
                                assert(child_views(children@) =~= before.push(
                                    (name, TreeView::Leaf(info@)),
                                ));
                            }
                        },
                    }
                } else {
                    match found {
                        Some(i) => {
                            let ghost child_before = children[i as int].1@;
                            assert(before[i as int].1 == child_before);
                            children[i].1.insert(rest, info);
                            proof {
                                lemma_node_view::<H>(*children);
                                assert(child_views(children@) =~= before.update(
                                    i as int,
                                    (name, child_before.insert(segments(rest@), info@)),
                                ));
                            }
                        },
                        None => {
                            let mut child = CommandTree::new();
                            child.insert(rest, info);
                            children.push((path[0].clone(), child));
                            proof {
                                lemma_node_view::<H>(*children);
                                assert(child_views(children@) =~= before.push(
                                    (name, TreeView::<H>::empty().insert(segments(rest@), info@)),
                                ));
                            }
                        },
                    }
                }
            },
            CommandTree::Leaf(_) => {},
        }
    }
}

} // verus!
