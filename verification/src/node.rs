//! The tree of containers.

use vstd::prelude::*;
use crate::fraction::{Fraction, FractionView};
use crate::geometry::TreeGeometry;
use crate::kinds::{BorderType, FloatMode, Layout, TreeType};

verus! {

/// One criterion by which a container takes up a window after a restart.
#[derive(Debug, PartialEq, Eq)]
pub struct Swallow {
    pub key: String,
    pub value: String,
}

/// One container of the tree, with the containers inside it.
#[derive(Debug, PartialEq, Eq)]
pub struct Node {
    pub border: BorderType,
    pub floating: FloatMode,
    pub layout: Option<Layout>,
    pub marks: Vec<String>,
    pub percent: Fraction,
    pub tree_type: TreeType,
    /// Below zero where the container shows no border.
    pub current_border_width: Option<i64>,
    /// The children, in the order of the document.
    pub nodes: Vec<Node>,
    pub geometry: Option<TreeGeometry>,
    pub name: Option<String>,
    /// The criteria by key, each key once.
    pub swallows: Vec<Swallow>,
    pub focused: bool,
}

/// What a [`Swallow`] stands for in contracts.
pub struct SwallowView {
    pub key: Seq<char>,
    pub value: Seq<char>,
}

/// What a [`Node`] stands for in contracts.
pub struct NodeView {
    pub border: BorderType,
    pub floating: FloatMode,
    pub layout: Option<Layout>,
    pub marks: Seq<Seq<char>>,
    pub percent: FractionView,
    pub tree_type: TreeType,
    pub current_border_width: Option<i64>,
    pub nodes: Seq<NodeView>,
    pub geometry: Option<TreeGeometry>,
    pub name: Option<Seq<char>>,
    pub swallows: Seq<SwallowView>,
    pub focused: bool,
}

impl View for Swallow {
    type V = SwallowView;

    open spec fn view(&self) -> SwallowView {
        SwallowView { key: self.key@, value: self.value@ }
    }
}

/// The views of `texts`, in their order.
pub open spec fn texts_view(texts: Seq<String>) -> Seq<Seq<char>> {
    Seq::new(texts.len(), |i: int| texts[i]@)
}

/// The views of `swallows`, in their order.
pub open spec fn swallows_view(swallows: Seq<Swallow>) -> Seq<SwallowView> {
    Seq::new(swallows.len(), |i: int| swallows[i]@)
}

/// The view of `text` where there is one.
pub open spec fn optional_text_view(text: Option<String>) -> Option<Seq<char>> {
    match text {
        Some(s) => Some(s@),
        None => None,
    }
}

/// The view of `node`.
pub open spec fn shape(node: Node) -> NodeView
    decreases node,
{
    NodeView {
        border: node.border,
        floating: node.floating,
        layout: node.layout,
        marks: texts_view(node.marks@),
        percent: node.percent@,
        tree_type: node.tree_type,
        current_border_width: node.current_border_width,
        nodes: Seq::new(
            node.nodes.len() as nat,
            |i: int|
                if 0 <= i < node.nodes.len() {
                    shape(node.nodes[i])
                } else {
                    arbitrary()
                },
        ),
        geometry: node.geometry,
        name: optional_text_view(node.name),
        swallows: swallows_view(node.swallows@),
        focused: node.focused,
    }
}

impl View for Node {
    type V = NodeView;

    open spec fn view(&self) -> NodeView {
        shape(*self)
    }
}

/// The views of `nodes`, in their order.
pub open spec fn nodes_view(nodes: Seq<Node>) -> Seq<NodeView> {
    Seq::new(nodes.len(), |i: int| nodes[i]@)
}

/// The children of a node show as the views of its children.
pub proof fn lemma_children_view(node: Node)
    ensures
        node@.nodes == nodes_view(node.nodes@),
{
    assert(node@.nodes =~= nodes_view(node.nodes@));
}

impl NodeView {
    /// Whether this container has something to show as its place: a layout
    /// or a rectangle.
    pub open spec fn has_place(self) -> bool {
        self.layout is Some || self.geometry is Some
    }

    /// Whether this container and every container below it has a layout or
    /// a rectangle. Only such a tree can be drawn.
    pub open spec fn drawable(self) -> bool
        decreases self,
    {
        &&& self.has_place()
        &&& forall|i: int| 0 <= i < self.nodes.len() ==> (#[trigger] self.nodes[i]).drawable()
    }

    /// Whether no key occurs twice among the swallow criteria of this
    /// container, nor among those of any container below it.
    pub open spec fn well_formed(self) -> bool
        decreases self,
    {
        &&& distinct_keys(self.swallows)
        &&& forall|i: int| 0 <= i < self.nodes.len() ==> (#[trigger] self.nodes[i]).well_formed()
    }
}

/// Whether no key occurs twice in `swallows`.
pub open spec fn distinct_keys(swallows: Seq<SwallowView>) -> bool {
    forall|i: int, j: int|
        0 <= i < j < swallows.len() ==> (#[trigger] swallows[i]).key != (#[trigger] swallows[j]).key
}

} // verus!
