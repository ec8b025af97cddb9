//! Drawing a tree as the text of a diagram.
//!
//! [`fragment`] says what text a tree is drawn as; [`Node::pretty_print`]
//! writes it. Each container that is shown becomes one record-shaped element
//! with an edge to each of its children that are drawn.

use vstd::prelude::*;
use crate::fraction::percent_text;
use crate::kinds::{BorderType, TreeType};
use crate::node::{
    lemma_children_view, nodes_view, swallows_view, texts_view, Node, NodeView, Swallow,
    SwallowView,
};
use crate::text::{decimal, decimal_text, signed_decimal, signed_decimal_text};

verus! {

/// What to draw of a tree, and how.
#[derive(Clone, Copy, Debug, PartialEq, Eq, Structural)]
pub struct Settings {
    /// Leave out the fields of an element that would be empty.
    pub silent: bool,
    /// Leave out the swallow criteria.
    pub no_swallows: bool,
    /// The kind of container from which on everything is drawn.
    pub expand_from: TreeType,
    /// Show the containers above the first of that kind as well.
    pub print_parents: bool,
}

/// The longest name, in characters, that an element shows whole.
pub const CUT_AT: usize = 50;

/// Whether `node` or a container below it has the focus.
pub open spec fn has_focus(node: NodeView) -> bool
    decreases node,
{
    node.focused || exists|i: int| 0 <= i < node.nodes.len() && has_focus(#[trigger] node.nodes[i])
}

/// What stands for the character `c` in the label of an element: the
/// backslash, the quote, the bar and the caret with a backslash in front, the
/// angle brackets as HTML entities, any other character itself.
pub open spec fn escape(c: char) -> Seq<char> {
    if c == '\\' {
        "\\\\"@
    } else if c == '"' {
        "\\\""@
    } else if c == '|' {
        "\\|"@
    } else if c == '^' {
        "\\^"@
    } else if c == '<' {
        "&lt;"@
    } else if c == '>' {
        "&gt;"@
    } else {
        seq![c]
    }
}

/// The first `n` characters of `text`, each escaped.
pub open spec fn escaped(text: Seq<char>, n: nat) -> Seq<char>
    decreases n,
{
    if n == 0 || n > text.len() {
        Seq::empty()
    } else {
        escaped(text, (n - 1) as nat) + escape(text[n - 1])
    }
}

/// The name that an element shows for a container named `name`: a name of at
/// most [`CUT_AT`] characters as it is, of a longer one the first [`CUT_AT`]
/// characters, escaped, and three dots. A container without name shows as
/// `(no name)`.
pub open spec fn shown_name(name: Option<Seq<char>>) -> Seq<char> {
    let full = match name {
        Some(given) => given,
        None => "(no name)"@,
    };
    if full.len() > CUT_AT {
        escaped(full, CUT_AT as nat) + "..."@
    } else {
        full
    }
}

/// The mark in front of the name of a container that has the focus or holds
/// the container that has it.
pub open spec fn focus_mark(focused: bool) -> Seq<char> {
    if focused {
        "\u{1F534} "@
    } else {
        ""@
    }
}

/// The field that shows where a container is: its layout, or the rectangle
/// of a container without layout.
pub open spec fn place(node: NodeView) -> Seq<char> {
    match node.layout {
        Some(layout) => "<NODES>Layout:\\n"@ + layout.code(),
        None => match node.geometry {
            Some(geometry) => geometry.shown(),
            None => Seq::empty(),
        },
    }
}

/// The first `n` of `marks`, one line each.
pub open spec fn mark_lines(marks: Seq<Seq<char>>, n: nat) -> Seq<char>
    decreases n,
{
    if n == 0 || n > marks.len() {
        Seq::empty()
    } else {
        mark_lines(marks, (n - 1) as nat) + "- \\\""@ + marks[n - 1] + "\\\"\\l"@
    }
}

/// The first `n` of `swallows`, one line each.
pub open spec fn criterion_lines(swallows: Seq<SwallowView>, n: nat) -> Seq<char>
    decreases n,
{
    if n == 0 || n > swallows.len() {
        Seq::empty()
    } else {
        criterion_lines(swallows, (n - 1) as nat) + "- "@ + swallows[n - 1].key + ": \\\""@
            + swallows[n - 1].value + "\\\"\\l"@
    }
}

/// Whether the drawing of `node` says nothing of swallow criteria: it has
/// none, or they are left out.
pub open spec fn hides_swallows(node: NodeView, settings: Settings) -> bool {
    node.swallows.len() == 0 || settings.no_swallows
}

/// What a silent element says of the border: nothing of a container without
/// border width, nor of one whose width is not above zero unless its border
/// is a normal one; else that the border has a title, where it is a normal
/// one, and the width with its unit, where it is above zero.
pub open spec fn border_note(node: NodeView) -> Seq<char> {
    match node.current_border_width {
        Some(width) => if width > 0 || node.border == BorderType::Normal {
            " | Border:"@ + (if node.border == BorderType::Normal {
                "\\nTitle"@
            } else {
                ""@
            }) + (if width > 0 {
                "\\n"@ + signed_decimal(width as int)
            } else {
                Seq::empty()
            }) + (if width > 0 {
                node.border.unit_text()
            } else {
                Seq::empty()
            })
        } else {
            Seq::empty()
        },
        None => Seq::empty(),
    }
}

/// What a silent element says of swallow criteria and marks.
pub open spec fn silent_extras(node: NodeView, settings: Settings) -> Seq<char> {
    if hides_swallows(node, settings) {
        if node.marks.len() == 0 {
            Seq::empty()
        } else {
            "| { Marks:\\n"@ + mark_lines(node.marks, node.marks.len()) + " }"@
        }
    } else if node.marks.len() == 0 {
        "| {{ <SWALLOWS>Swallows }}"@
    } else {
        "| { <SWALLOWS>Swallows | Marks:\\n"@ + mark_lines(node.marks, node.marks.len()) + " }"@
    }
}

/// The label of the silent element of `node`.
pub open spec fn silent_label(node: NodeView, settings: Settings) -> Seq<char> {
    "{<NAME>"@ + focus_mark(has_focus(node)) + shown_name(node.name) + "|{ { { Tree Type:\\n"@
        + node.tree_type.code() + " | Floating:\\n"@ + node.floating.shown() + " } | "@ + place(
        node,
    ) + " }| { { Percent:\\n"@ + percent_text(node.percent) + "% "@ + border_note(node) + " } "@
        + silent_extras(node, settings) + " } } }"@
}

/// What a full element says of the border width.
pub open spec fn width_note(node: NodeView) -> Seq<char> {
    match node.current_border_width {
        Some(width) => signed_decimal(width as int),
        None => "N/A"@,
    }
}

/// What a full element says of marks.
pub open spec fn marks_note(node: NodeView) -> Seq<char> {
    if node.marks.len() == 0 {
        "No marks"@
    } else {
        "Marks:\\n"@ + mark_lines(node.marks, node.marks.len())
    }
}

/// What a full element says of swallow criteria.
pub open spec fn swallows_note(node: NodeView, settings: Settings) -> Seq<char> {
    if hides_swallows(node, settings) {
        ""@
    } else {
        "<SWALLOWS>Swallows | "@
    }
}

/// The label of the full element of `node`.
pub open spec fn full_label(node: NodeView, settings: Settings) -> Seq<char> {
    "{<NAME>"@ + focus_mark(has_focus(node)) + shown_name(node.name) + "|{ { { Tree Type:\\n"@
        + node.tree_type.code() + " | Floating:\\n"@ + node.floating.shown()
        + " } | Border Type:\\n"@ + node.border.code() + " | "@ + place(node)
        + " }| { { Percent:\\n"@ + percent_text(node.percent) + "% | Border Width:\\n"@
        + width_note(node) + " } | { "@ + swallows_note(node, settings) + " "@ + marks_note(node)
        + " } } } }"@
}

/// The label of the element of `node`.
pub open spec fn label(node: NodeView, settings: Settings) -> Seq<char> {
    if settings.silent {
        silent_label(node, settings)
    } else {
        full_label(node, settings)
    }
}

/// The element of `node` under the identifier `id`.
pub open spec fn element(node: NodeView, id: Seq<char>, settings: Settings) -> Seq<char> {
    "\tnode_"@ + id + " [shape=record label=\""@ + label(node, settings) + "\"]\n"@
}

/// The element that lists the swallow criteria of `node`, with the edge that
/// leads to it from the element of `node`; nothing where the criteria are
/// hidden.
pub open spec fn swallow_block(node: NodeView, id: Seq<char>, settings: Settings) -> Seq<char> {
    if hides_swallows(node, settings) {
        Seq::empty()
    } else {
        "\tnode_"@ + id + "_swallows [shape=record label=\"{ <HEAD>Swallows | "@ + criterion_lines(
            node.swallows,
            node.swallows.len(),
        ) + " }\"]\n\tnode_"@ + id + ":SWALLOWS -> node_"@ + id + "_swallows:HEAD"@
    }
}

/// The edge from the element `id` to the element `child` of one of its
/// children.
pub open spec fn edge(id: Seq<char>, child: Seq<char>) -> Seq<char> {
    "\tnode_"@ + id + ":NODES -> node_"@ + child + ":NAME\n"@
}

/// The identifier of a child: that of its parent, an underscore, and the
/// position of the child among the children of its parent, counted from 0
/// in the order of the document.
pub open spec fn child_id(id: Seq<char>, position: nat) -> Seq<char> {
    id + "_"@ + decimal(position)
}

/// Whether a container draws everything below it: a container above it did
/// so, or it is of the kind from which on everything is drawn.
pub open spec fn expands(node: NodeView, settings: Settings, inherited: bool) -> bool {
    inherited || node.tree_type == settings.expand_from
}

/// Whether a container is shown as an element: it draws everything below it,
/// or the containers above such a one are shown too.
pub open spec fn shows(node: NodeView, settings: Settings, inherited: bool) -> bool {
    expands(node, settings, inherited) || settings.print_parents
}

/// Whether the child `child` is drawn: every child of a container that
/// draws everything, else those on the way to the focus.
pub open spec fn selected(child: NodeView, expanding: bool) -> bool {
    expanding || has_focus(child)
}

/// Whether `node` can be drawn: each container of it that is shown has a
/// layout or a rectangle. `inherited` says whether a container above it
/// draws everything below it.
pub open spec fn draws(node: NodeView, settings: Settings, inherited: bool) -> bool
    decreases node,
{
    &&& shows(node, settings, inherited) ==> node.has_place()
    &&& forall|i: int|
        0 <= i < node.nodes.len() && selected(
            #[trigger] node.nodes[i],
            expands(node, settings, inherited),
        ) ==> draws(node.nodes[i], settings, expands(node, settings, inherited))
}

/// A tree in which every container has a layout or a rectangle can be
/// drawn, whatever the settings.
pub proof fn lemma_drawable_draws(node: NodeView, settings: Settings, inherited: bool)
    requires
        node.drawable(),
    ensures
        draws(node, settings, inherited),
    decreases node,
{
    assert forall|i: int|
        0 <= i < node.nodes.len() && selected(
            #[trigger] node.nodes[i],
            expands(node, settings, inherited),
        ) implies draws(node.nodes[i], settings, expands(node, settings, inherited)) by {
        lemma_drawable_draws(node.nodes[i], settings, expands(node, settings, inherited));
    }
}

/// What a container that is shown draws of itself: its element and the
/// element of its swallow criteria. A container that is not shown draws
/// nothing of itself.
#[verifier::opaque]
pub open spec fn own_part(node: NodeView, id: Seq<char>, settings: Settings, shown: bool) -> Seq<
    char,
> {
    if shown {
        element(node, id, settings) + swallow_block(node, id, settings)
    } else {
        Seq::empty()
    }
}

/// The text that `node` is drawn as under the identifier `id`. `inherited`
/// says whether a container above it draws everything below it.
///
/// The container draws itself, where it is shown, and then each of its
/// children that are drawn, in the order of the document. A child that is
/// drawn is followed, where its parent is shown, by the edge from the parent
/// to it.
pub open spec fn fragment(
    node: NodeView,
    id: Seq<char>,
    settings: Settings,
    inherited: bool,
) -> Seq<char>
    decreases node, 0nat,
{
    own_part(node, id, settings, shows(node, settings, inherited)) + children_part(
        node.nodes,
        node.nodes.len(),
        id,
        settings,
        expands(node, settings, inherited),
        shows(node, settings, inherited),
    )
}

/// What the first `n` of the children `nodes` of the container `id` are
/// drawn as. `expanding` says whether the container draws everything below
/// it, `shown` whether it is shown.
pub open spec fn children_part(
    nodes: Seq<NodeView>,
    n: nat,
    id: Seq<char>,
    settings: Settings,
    expanding: bool,
    shown: bool,
) -> Seq<char>
    decreases nodes, n,
{
    if n == 0 || n > nodes.len() {
        Seq::empty()
    } else {
        let before = children_part(nodes, (n - 1) as nat, id, settings, expanding, shown);
        if selected(nodes[n - 1], expanding) {
            let child = child_id(id, (n - 1) as nat);
            before + fragment(nodes[n - 1], child, settings, expanding) + (if shown {
                edge(id, child)
            } else {
                Seq::empty()
            })
        } else {
            before
        }
    }
}

/// Writes the name that an element shows for a container named `name`.
pub fn cut_name(name: &str) -> (r: String)
    ensures
        r@ == shown_name(Some(name@)),
{
    if name.unicode_len() > CUT_AT {
        let mut r = String::new();
        let mut i: usize = 0;
        while i < CUT_AT
            invariant
                i <= CUT_AT < name@.len(),
                r@ == escaped(name@, i as nat),
            decreases CUT_AT - i,
        {
            let c = name.get_char(i);
            if c == '\\' {
                r.append("\\\\");
            } else if c == '"' {
                r.append("\\\"");
            } else if c == '|' {
                r.append("\\|");
            } else if c == '^' {
                r.append("\\^");
            } else if c == '<' {
                r.append("&lt;");
            } else if c == '>' {
                r.append("&gt;");
            } else {
                let same = name.substring_char(i, i + 1);
                assert(same@ =~= seq![c]);
                r.append(same);
            }
            i += 1;
        }
        r.append("...");
        r
    } else {
        String::from_str(name)
    }
}

/// Writes the marks `marks`, one line each.
fn mark_lines_text(marks: &Vec<String>) -> (r: String)
    ensures
        r@ == mark_lines(texts_view(marks@), marks@.len()),
{
    let mut r = String::new();
    let mut i: usize = 0;
    while i < marks.len()
        invariant
            i <= marks.len(),
            r@ == mark_lines(texts_view(marks@), i as nat),
        decreases marks.len() - i,
    {
        r.append("- \\\"");
        r.append(marks[i].as_str());
        r.append("\\\"\\l");
        i += 1;
    }
    r
}

/// Writes the swallow criteria `swallows`, one line each.
fn criterion_lines_text(swallows: &Vec<Swallow>) -> (r: String)
    ensures
        r@ == criterion_lines(swallows_view(swallows@), swallows@.len()),
{
    let mut r = String::new();
    let mut i: usize = 0;
    while i < swallows.len()
        invariant
            i <= swallows.len(),
            r@ == criterion_lines(swallows_view(swallows@), i as nat),
        decreases swallows.len() - i,
    {
        r.append("- ");
        r.append(swallows[i].key.as_str());
        r.append(": \\\"");
        r.append(swallows[i].value.as_str());
        r.append("\\\"\\l");
        i += 1;
    }
    r
}

/// Writes the edge from the element `id` to the element `child`.
fn edge_text(id: &str, child: &str) -> (r: String)
    ensures
        r@ == edge(id@, child@),
{
    let mut r = String::from_str("\tnode_");
    r.append(id);
    r.append(":NODES -> node_");
    r.append(child);
    r.append(":NAME\n");
    r
}

/// Writes the identifier of the child of `id` at the position `position`.
fn child_id_text(id: &str, position: usize) -> (r: String)
    ensures
        r@ == child_id(id@, position as nat),
{
    let mut r = String::from_str(id);
    r.append("_");
    r.append(decimal_text(position as u128).as_str());
    r
}

impl Node {
    /// Whether this container or a container below it has the focus.
    pub fn has_focus(&self) -> (r: bool)
        ensures
            r == has_focus(self@),
        decreases self@,
    {
        if self.focused {
            return true;
        }
        proof {
            lemma_children_view(*self);
        }
        let mut i: usize = 0;
        while i < self.nodes.len()
            invariant
                i <= self.nodes.len(),
                !self.focused,
                self@.nodes == nodes_view(self.nodes@),
                forall|j: int| 0 <= j < i ==> !has_focus(#[trigger] self@.nodes[j]),
            decreases self.nodes.len() - i,
        {
            assert(self@.nodes[i as int] == self.nodes[i as int]@);
            assert(decreases_to!(self@ => self@.nodes[i as int]));
            if self.nodes[i].has_focus() {
                assert(has_focus(self@.nodes[i as int]));
                return true;
            }
            i += 1;
        }
        false
    }

    /// Writes the field that shows where this container is.
    fn place_text(&self) -> (r: String)
        requires
            self@.has_place(),
        ensures
            r@ == place(self@),
    {
        match &self.layout {
            Some(layout) => {
                let mut r = String::from_str("<NODES>Layout:\\n");
                r.append(layout.to_string().as_str());
                r
            },
            None => match &self.geometry {
                Some(geometry) => geometry.pretty_print(),
                None => String::new(),
            },
        }
    }

    /// Writes what a silent element says of the border.
    fn border_note_text(&self) -> (r: String)
        ensures
            r@ == border_note(self@),
    {
        match self.current_border_width {
            Some(width) => {
                let normal = self.border == BorderType::Normal;
                if width > 0 || normal {
                    let mut r = String::from_str(" | Border:");
                    if normal {
                        r.append("\\nTitle");
                    } else {
                        r.append("");
                    }
                    if width > 0 {
                        let mut shown = String::from_str("\\n");
                        shown.append(signed_decimal_text(width).as_str());
                        r.append(shown.as_str());
                        r.append(self.border.unit().as_str());
                    } else {
                        assert(r@ + Seq::<char>::empty() =~= r@);
                    }
                    r
                } else {
                    String::new()
                }
            },
            None => String::new(),
        }
    }

    /// Whether the drawing of this container says nothing of swallow
    /// criteria.
    fn hides_swallows(&self, settings: &Settings) -> (r: bool)
        ensures
            r == hides_swallows(self@, *settings),
    {
        self.swallows.len() == 0 || settings.no_swallows
    }

    /// Writes what a silent element says of swallow criteria and marks.
    fn silent_extras_text(&self, settings: &Settings) -> (r: String)
        ensures
            r@ == silent_extras(self@, *settings),
    {
        if self.hides_swallows(settings) {
            if self.marks.len() == 0 {
                String::new()
            } else {
                let mut r = String::from_str("| { Marks:\\n");
                r.append(mark_lines_text(&self.marks).as_str());
                r.append(" }");
                r
            }
        } else if self.marks.len() == 0 {
            String::from_str("| {{ <SWALLOWS>Swallows }}")
        } else {
            let mut r = String::from_str("| { <SWALLOWS>Swallows | Marks:\\n");
            r.append(mark_lines_text(&self.marks).as_str());
            r.append(" }");
            r
        }
    }

    /// Writes the name that the element of this container shows.
    fn name_text(&self) -> (r: String)
        ensures
            r@ == shown_name(self@.name),
    {
        match &self.name {
            Some(name) => cut_name(name.as_str()),
            None => cut_name("(no name)"),
        }
    }

    /// Writes the label of the element of this container.
    fn label_text(&self, settings: &Settings) -> (r: String)
        requires
            self@.has_place(),
        ensures
            r@ == label(self@, *settings),
    {
        let mut r = String::from_str("{<NAME>");
        if self.has_focus() {
            r.append("\u{1F534} ");
        } else {
            r.append("");
        }
        r.append(self.name_text().as_str());
        r.append("|{ { { Tree Type:\\n");
        r.append(self.tree_type.to_string().as_str());
        r.append(" | Floating:\\n");
        r.append(self.floating.to_string().as_str());
        if settings.silent {
            r.append(" } | ");
            r.append(self.place_text().as_str());
            r.append(" }| { { Percent:\\n");
            r.append(self.percent.percent_text().as_str());
            r.append("% ");
            r.append(self.border_note_text().as_str());
            r.append(" } ");
            r.append(self.silent_extras_text(settings).as_str());
            r.append(" } } }");
        } else {
            r.append(" } | Border Type:\\n");
            r.append(self.border.to_string().as_str());
            r.append(" | ");
            r.append(self.place_text().as_str());
            r.append(" }| { { Percent:\\n");
            r.append(self.percent.percent_text().as_str());
            r.append("% | Border Width:\\n");
            match self.current_border_width {
                Some(width) => {
                    r.append(signed_decimal_text(width).as_str());
                },
                None => {
                    r.append("N/A");
                },
            }
            r.append(" } | { ");
            if self.hides_swallows(settings) {
                r.append("");
            } else {
                r.append("<SWALLOWS>Swallows | ");
            }
            r.append(" ");
            if self.marks.len() == 0 {
                r.append("No marks");
            } else {
                let mut marks = String::from_str("Marks:\\n");
                marks.append(mark_lines_text(&self.marks).as_str());
                r.append(marks.as_str());
            }
            r.append(" } } } }");
        }
        r
    }

    /// Writes what this container draws of itself where it is shown.
    fn own_text(&self, id: &str, settings: &Settings) -> (r: String)
        requires
            self@.has_place(),
        ensures
            r@ == own_part(self@, id@, *settings, true),
    {
        reveal(own_part);
        let mut r = String::from_str("\tnode_");
        r.append(id);
        r.append(" [shape=record label=\"");
        r.append(self.label_text(settings).as_str());
        r.append("\"]\n");
        if !self.hides_swallows(settings) {
            let mut block = String::from_str("\tnode_");
            block.append(id);
            block.append("_swallows [shape=record label=\"{ <HEAD>Swallows | ");
            block.append(criterion_lines_text(&self.swallows).as_str());
            block.append(" }\"]\n\tnode_");
            block.append(id);
            block.append(":SWALLOWS -> node_");
            block.append(id);
            block.append("_swallows:HEAD");
            r.append(block.as_str());
        } else {
            assert(r@ + Seq::<char>::empty() =~= r@);
        }
        r
    }

    /// Whether this container can be drawn with these settings: each
    /// container of it that would be shown has a layout or a rectangle.
    pub fn can_draw(&self, settings: &Settings, print_children: bool) -> (r: bool)
        ensures
            r == draws(self@, *settings, print_children),
        decreases self@,
    {
        let expanding = print_children || self.tree_type == settings.expand_from;
        let shown = expanding || settings.print_parents;
        if shown && self.layout.is_none() && self.geometry.is_none() {
            return false;
        }
        proof {
            lemma_children_view(*self);
        }
        let mut i: usize = 0;
        while i < self.nodes.len()
            invariant
                i <= self.nodes.len(),
                expanding == expands(self@, *settings, print_children),
                shows(self@, *settings, print_children) ==> self@.has_place(),
                self@.nodes == nodes_view(self.nodes@),
                forall|j: int|
                    0 <= j < i && selected(#[trigger] self@.nodes[j], expanding) ==> draws(
                        self@.nodes[j],
                        *settings,
                        expanding,
                    ),
            decreases self.nodes.len() - i,
        {
            let child = &self.nodes[i];
            assert(self@.nodes[i as int] == child@);
            assert(decreases_to!(self@ => self@.nodes[i as int]));
            if (expanding || child.has_focus()) && !child.can_draw(settings, expanding) {
                return false;
            }
            i += 1;
        }
        true
    }

    /// Draws this container and what is below it as the text of diagram
    /// elements and edges. `id` is the identifier of this container;
    /// `print_children` says whether a container above it already draws
    /// everything below it.
    ///
    /// Each container that is shown must have a layout or a rectangle; see
    /// [`Node::can_draw`].
    pub fn pretty_print(&self, id: &str, settings: &Settings, print_children: bool) -> (r: String)
        requires
            draws(self@, *settings, print_children),
        ensures
            r@ == fragment(self@, id@, *settings, print_children),
        decreases self@,
    {
        let expanding = print_children || self.tree_type == settings.expand_from;
        let shown = expanding || settings.print_parents;
        let mut r = if shown {
            self.own_text(id, settings)
        } else {
            proof {
                reveal(own_part);
            }
            String::new()
        };
        proof {
            lemma_children_view(*self);
        }
        let ghost own = r@;
        let ghost nodes = self@.nodes;
        let mut i: usize = 0;
        assert(r@ =~= own + children_part(nodes, 0, id@, *settings, expanding, shown));
        while i < self.nodes.len()
            invariant
                i <= self.nodes.len(),
                nodes == self@.nodes,
                nodes == nodes_view(self.nodes@),
                expanding == expands(self@, *settings, print_children),
                draws(self@, *settings, print_children),
                r@ == own + children_part(nodes, i as nat, id@, *settings, expanding, shown),
            decreases self.nodes.len() - i,
        {
            let child = &self.nodes[i];
            assert(nodes[i as int] == child@);
            assert(decreases_to!(self@ => nodes[i as int]));
            if expanding || child.has_focus() {
                let child_id = child_id_text(id, i);
                let drawn = child.pretty_print(child_id.as_str(), settings, expanding);
                r.append(drawn.as_str());
                if shown {
                    r.append(edge_text(id, child_id.as_str()).as_str());
                }
                assert(r@ =~= own + children_part(
                    nodes,
                    (i + 1) as nat,
                    id@,
                    *settings,
                    expanding,
                    shown,
                ));
            }
            i += 1;
        }
        r
    }
}


} // verus!
