//! Menu tree mapping: pure recursive translation of a host-supplied menu
//! node tree into interactive elements, each clickable element owning a
//! copy of its click command.

use vstd::prelude::*;

verus! {

broadcast use vstd::std_specs::vec::group_vec_axioms;

/// The two kinds of menu node: a non-interactive divider, or a labeled
/// clickable entry.
#[derive(Clone, Copy, PartialEq, Eq, Structural, Debug)]
pub enum MenuKind {
    Separator,
    Standard,
}

/// One node of a host-supplied menu tree. Children are in render order.
pub struct MenuNode {
    pub id: i32,
    pub label: String,
    pub kind: MenuKind,
    pub children: Vec<MenuNode>,
}

/// A whole menu tree: an ordered sequence of root nodes.
pub struct MenuTree {
    pub nodes: Vec<MenuNode>,
}

/// A command sent back to the host when a menu entry is activated.
pub enum OutgoingCommand {
    MenuItemClicked { submenu_id: i32, menu_path: String, notifier_address: String },
}

/// A rendered menu element. A `Divider` is never interactive; a
/// `Clickable` element owns its label, its click command (captured by
/// value) and its submenu elements in order.
pub enum Element {
    Divider,
    Clickable { label: String, command: OutgoingCommand, submenu: Vec<Element> },
}

impl Clone for OutgoingCommand {
    fn clone(&self) -> (r: Self)
        ensures
            r == *self,
    {
        match self {
            OutgoingCommand::MenuItemClicked { submenu_id, menu_path, notifier_address } => {
                OutgoingCommand::MenuItemClicked {
                    submenu_id: *submenu_id,
                    menu_path: menu_path.clone(),
                    notifier_address: notifier_address.clone(),
                }
            },
        }
    }
}

/// What it means for `e` to be the correct rendering of `node` for an item
/// at address `addr` whose menu object lives at `path`: a separator maps
/// to a divider with nothing under it, and a standard node maps to a
/// clickable element carrying the node's label, the exact click command,
/// and the renderings of the children in order.
pub open spec fn elem_matches(node: MenuNode, addr: Seq<char>, path: Seq<char>, e: Element) -> bool
    decreases node,
{
    match node.kind {
        MenuKind::Separator => e is Divider,
        MenuKind::Standard => {
            &&& e matches Element::Clickable { label, command, submenu }
            &&& label@ == node.label@
            &&& command matches OutgoingCommand::MenuItemClicked {
                submenu_id,
                menu_path,
                notifier_address,
            }
            &&& submenu_id == node.id
            &&& menu_path@ == path
            &&& notifier_address@ == addr
            &&& submenu@.len() == node.children@.len()
            &&& forall|i: int|
                0 <= i < node.children@.len() ==> elem_matches(
                    node.children@[i],
                    addr,
                    path,
                    #[trigger] submenu@[i],
                )
        },
    }
}

/// Recursively translate one menu node into its element. The element owns
/// copies of the address, the menu path and the label, so it survives the
/// node it came from.
pub fn to_element(node: &MenuNode, notifier_address: &String, menu_path: &String) -> (e: Element)
    ensures
        elem_matches(*node, notifier_address@, menu_path@, e),
    decreases *node,
{
    match node.kind {
        MenuKind::Separator => Element::Divider,
        MenuKind::Standard => {
            let mut submenu: Vec<Element> = Vec::new();
            let n = node.children.len();
            for i in 0..n
                invariant
                    n == node.children@.len(),
                    submenu@.len() == i,
                    forall|j: int|
                        0 <= j < i ==> elem_matches(
                            node.children@[j],
                            notifier_address@,
                            menu_path@,
                            #[trigger] submenu@[j],
                        ),
                decreases n - i,
            {
                let child = to_element(&node.children[i], notifier_address, menu_path);
                submenu.push(child);
            }
            let command = OutgoingCommand::MenuItemClicked {
                submenu_id: node.id,
                menu_path: menu_path.clone(),
                notifier_address: notifier_address.clone(),
            };
            Element::Clickable { label: node.label.clone(), command, submenu }
        },
    }
}

/// Translate every root node of a tree, in order.
pub fn tree_elements(tree: &MenuTree, notifier_address: &String, menu_path: &String) -> (v: Vec<
    Element,
>)
    ensures
        v@.len() == tree.nodes@.len(),
        forall|i: int|
            0 <= i < v@.len() ==> elem_matches(
                tree.nodes@[i],
                notifier_address@,
                menu_path@,
                #[trigger] v@[i],
            ),
{
    let mut v: Vec<Element> = Vec::new();
    let n = tree.nodes.len();
    for i in 0..n
        invariant
            n == tree.nodes@.len(),
            v@.len() == i,
            forall|j: int|
                0 <= j < i ==> elem_matches(
                    tree.nodes@[j],
                    notifier_address@,
                    menu_path@,
                    #[trigger] v@[j],
                ),
        decreases n - i,
    {
        let e = to_element(&tree.nodes[i], notifier_address, menu_path);
        v.push(e);
    }
    v
}

/// The node reached from `node` by following child indices, descending
/// through `Standard` nodes only: those are the nodes whose children
/// the mapper renders (a separator's children are never rendered).
pub open spec fn rendered_node_at(node: MenuNode, steps: Seq<int>) -> Option<MenuNode>
    decreases steps.len(),
{
    if steps.len() == 0 {
        Some(node)
    } else if node.kind == MenuKind::Standard && 0 <= steps[0] < node.children@.len() {
        rendered_node_at(node.children@[steps[0]], steps.drop_first())
    } else {
        None
    }
}

/// The element reached from `e` by following submenu indices.
pub open spec fn element_at(e: Element, steps: Seq<int>) -> Option<Element>
    decreases steps.len(),
{
    if steps.len() == 0 {
        Some(e)
    } else {
        match e {
            Element::Divider => None,
            Element::Clickable { submenu, .. } => if 0 <= steps[0] < submenu@.len() {
                element_at(submenu@[steps[0]], steps.drop_first())
            } else {
                None
            },
        }
    }
}

/// Menu mapping round trip: when `e` is the mapping of `node`, every
/// node reachable in the rendered tree has, at the same path, an
/// element that is its mapping; in particular, the element of a
/// `Standard` node carries exactly that node's click command — its own
/// id, the enclosing item's menu path and the enclosing item's address.
pub proof fn lemma_mapping_round_trip(
    node: MenuNode,
    addr: Seq<char>,
    mpath: Seq<char>,
    e: Element,
    steps: Seq<int>,
    target: MenuNode,
)
    requires
        elem_matches(node, addr, mpath, e),
        rendered_node_at(node, steps) == Some(target),
    ensures
        element_at(e, steps) matches Some(te) && elem_matches(target, addr, mpath, te),
        target.kind == MenuKind::Standard ==> (element_at(e, steps) matches Some(te)
            && te matches Element::Clickable { command, .. } && command
            matches OutgoingCommand::MenuItemClicked { submenu_id, menu_path, notifier_address }
            && submenu_id == target.id && menu_path@ == mpath && notifier_address@ == addr),
    decreases steps.len(),
{
    if steps.len() == 0 {
    } else {
        let i = steps[0];
        match e {
            Element::Clickable { submenu, .. } => {
                assert(elem_matches(node.children@[i], addr, mpath, submenu@[i]));
                lemma_mapping_round_trip(
                    node.children@[i],
                    addr,
                    mpath,
                    submenu@[i],
                    steps.drop_first(),
                    target,
                );
            },
            Element::Divider => {
                assert(false);
            },
        }
    }
}

/// A separator node is never interactive: its mapping is a divider,
/// whatever children the host supplied, and activating a divider
/// enqueues no command.
pub proof fn lemma_separator_non_interactive(
    node: MenuNode,
    addr: Seq<char>,
    mpath: Seq<char>,
    e: Element,
)
    requires
        node.kind == MenuKind::Separator,
        elem_matches(node, addr, mpath, e),
    ensures
        e is Divider,
{
}

/// Simulate activating an element: a clickable element enqueues exactly
/// its own command, once; a divider enqueues nothing.
pub fn activate(e: &Element, outbound: &mut Vec<OutgoingCommand>)
    ensures
        match *e {
            Element::Divider => final(outbound)@ == old(outbound)@,
            Element::Clickable { command, .. } => final(outbound)@ == old(outbound)@.push(command),
        },
{
    match e {
        Element::Divider => {},
        Element::Clickable { command, .. } => {
            outbound.push(command.clone());
        },
    }
}

} // verus!
