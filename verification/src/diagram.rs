//! The frame of a diagram: what comes before and after the trees, and a
//! tree as one document of several.

use vstd::prelude::*;
use crate::node::{nodes_view, Node, NodeView};
use crate::render::{draws, fragment, Settings};
use crate::text::{decimal, decimal_text};

verus! {

/// The text that opens a diagram: its head, and a title unless the diagram
/// is silent.
pub open spec fn opening(settings: Settings) -> Seq<char> {
    if settings.silent {
        "digraph tuilade {\n"@
    } else {
        "digraph tuilade {\n"@ + "\tnode_title[shape=rectangle label = \"Tuilade i3 viewer\"]\n"@
    }
}

/// The text that closes a diagram.
pub open spec fn closing() -> Seq<char> {
    "}\n"@
}

/// The text of the tree `node` as document number `index` of a diagram,
/// counted from 0: the tree drawn under the decimal notation of `index`,
/// and a line break.
pub open spec fn document(node: NodeView, index: nat, settings: Settings) -> Seq<char> {
    fragment(node, decimal(index), settings, node.tree_type == settings.expand_from) + "\n"@
}

/// Whether the tree `node` can be drawn as a document of a diagram: each
/// container of it that is shown has a layout or a rectangle.
pub open spec fn can_be_drawn(node: NodeView, settings: Settings) -> bool {
    draws(node, settings, node.tree_type == settings.expand_from)
}

/// Writes what opens a diagram.
pub fn open_diagram(settings: &Settings) -> (r: String)
    ensures
        r@ == opening(*settings),
{
    let mut r = String::from_str("digraph tuilade {\n");
    if !settings.silent {
        r.append("\tnode_title[shape=rectangle label = \"Tuilade i3 viewer\"]\n");
    }
    r
}

/// Writes what closes a diagram.
pub fn close_diagram() -> (r: String)
    ensures
        r@ == closing(),
{
    String::from_str("}\n")
}

/// Draws the tree `node` as document number `index` of a diagram.
///
/// Each container that is shown must have a layout or a rectangle; see
/// [`can_draw_document`].
pub fn draw_document(node: &Node, index: usize, settings: &Settings) -> (r: String)
    requires
        can_be_drawn(node@, *settings),
    ensures
        r@ == document(node@, index as nat, *settings),
{
    let id = decimal_text(index as u128);
    let mut r = node.pretty_print(id.as_str(), settings, node.tree_type == settings.expand_from);
    r.append("\n");
    r
}

/// Whether the tree `node` can be drawn as a document of a diagram.
pub fn can_draw_document(node: &Node, settings: &Settings) -> (r: bool)
    ensures
        r == can_be_drawn(node@, *settings),
{
    node.can_draw(settings, node.tree_type == settings.expand_from)
}

impl Node {
    /// Whether this container and every container below it has a layout or
    /// a rectangle, so that the tree can be drawn.
    pub fn is_drawable(&self) -> (r: bool)
        ensures
            r == self@.drawable(),
        decreases self@,
    {
        if self.layout.is_none() && self.geometry.is_none() {
            return false;
        }
        proof {
            crate::node::lemma_children_view(*self);
        }
        let mut i: usize = 0;
        while i < self.nodes.len()
            invariant
                i <= self.nodes.len(),
                self@.has_place(),
                self@.nodes == nodes_view(self.nodes@),
                forall|j: int| 0 <= j < i ==> (#[trigger] self@.nodes[j]).drawable(),
            decreases self.nodes.len() - i,
        {
            assert(self@.nodes[i as int] == self.nodes[i as int]@);
            assert(decreases_to!(self@ => self@.nodes[i as int]));
            if !self.nodes[i].is_drawable() {
                return false;
            }
            i += 1;
        }
        true
    }
}

} // verus!
