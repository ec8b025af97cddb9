//! Laws of drawing: what holds of every tree and every setting.

use vstd::prelude::*;
use crate::node::NodeView;
use crate::render::{
    child_id, children_part, edge, element, escape, escaped, expands, fragment, has_focus,
    hides_swallows, own_part, shown_name, shows, swallow_block, Settings, CUT_AT,
};

verus! {

/// The text that `node` is drawn as when every container of it is shown:
/// its element, the element of its swallow criteria, and for each child, in
/// the order of the document, the child drawn in the same way and the edge
/// to it. The focus decides nothing here.
pub open spec fn whole(node: NodeView, id: Seq<char>, settings: Settings) -> Seq<char>
    decreases node, 0nat,
{
    element(node, id, settings) + swallow_block(node, id, settings) + whole_children(
        node.nodes,
        node.nodes.len(),
        id,
        settings,
    )
}

/// The first `n` of the children `nodes` of the container `id`, each drawn
/// whole and followed by the edge to it.
pub open spec fn whole_children(
    nodes: Seq<NodeView>,
    n: nat,
    id: Seq<char>,
    settings: Settings,
) -> Seq<char>
    decreases nodes, n,
{
    if n == 0 || n > nodes.len() {
        Seq::empty()
    } else {
        whole_children(nodes, (n - 1) as nat, id, settings) + whole(
            nodes[n - 1],
            child_id(id, (n - 1) as nat),
            settings,
        ) + edge(id, child_id(id, (n - 1) as nat))
    }
}

/// Expansion is sticky: a container that draws everything below it, because
/// a container above it did or because it is of the kind to expand from, is
/// drawn whole. Every container below it is shown, whatever has the focus.
pub proof fn lemma_expansion_is_sticky(
    node: NodeView,
    id: Seq<char>,
    settings: Settings,
    inherited: bool,
)
    requires
        expands(node, settings, inherited),
    ensures
        fragment(node, id, settings, inherited) == whole(node, id, settings),
    decreases node, 0nat,
{
    reveal(own_part);
    lemma_expanded_children(node.nodes, node.nodes.len(), id, settings);
    assert(fragment(node, id, settings, inherited) =~= whole(node, id, settings));
}

/// The children of a container that draws everything below it are drawn
/// whole, each under the identifier of its place in the document.
pub proof fn lemma_expanded_children(
    nodes: Seq<NodeView>,
    n: nat,
    id: Seq<char>,
    settings: Settings,
)
    requires
        n <= nodes.len(),
    ensures
        children_part(nodes, n, id, settings, true, true) == whole_children(nodes, n, id, settings),
    decreases nodes, n,
{
    if n > 0 {
        lemma_expanded_children(nodes, (n - 1) as nat, id, settings);
        lemma_expansion_is_sticky(nodes[n - 1], child_id(id, (n - 1) as nat), settings, true);
    }
}

/// `node` without its swallow criteria, and without those of the containers
/// below it.
pub open spec fn without_swallows(node: NodeView) -> NodeView
    decreases node,
{
    NodeView {
        swallows: Seq::empty(),
        nodes: Seq::new(
            node.nodes.len(),
            |i: int|
                if 0 <= i < node.nodes.len() {
                    without_swallows(node.nodes[i])
                } else {
                    node
                },
        ),
        ..node
    }
}

/// Whether a container leads to the focus does not depend on swallow
/// criteria.
pub proof fn lemma_focus_without_swallows(node: NodeView)
    ensures
        has_focus(without_swallows(node)) == has_focus(node),
    decreases node,
{
    let bare = without_swallows(node);
    assert forall|i: int| 0 <= i < node.nodes.len() implies has_focus(bare.nodes[i]) == has_focus(
        node.nodes[i],
    ) by {
        lemma_focus_without_swallows(node.nodes[i]);
    }
    if has_focus(node) && !node.focused {
        let i = choose|i: int| 0 <= i < node.nodes.len() && has_focus(#[trigger] node.nodes[i]);
        assert(has_focus(bare.nodes[i]));
    }
    if has_focus(bare) && !bare.focused {
        let i = choose|i: int| 0 <= i < bare.nodes.len() && has_focus(#[trigger] bare.nodes[i]);
        assert(has_focus(node.nodes[i]));
    }
}

/// With the swallow criteria left out, a container draws of itself what it
/// would draw if it had none.
pub proof fn lemma_own_part_without_swallows(
    node: NodeView,
    id: Seq<char>,
    settings: Settings,
    shown: bool,
)
    requires
        settings.no_swallows,
    ensures
        own_part(node, id, settings, shown) == own_part(
            without_swallows(node),
            id,
            settings,
            shown,
        ),
        swallow_block(node, id, settings) == Seq::<char>::empty(),
{
    reveal(own_part);
    lemma_focus_without_swallows(node);
}

/// Swallow criteria are drawn only where the settings let them: with the
/// criteria left out, a tree is drawn as the same tree without any swallow
/// criteria, so no element lists them and no field points to them.
pub proof fn lemma_swallows_left_out(
    node: NodeView,
    id: Seq<char>,
    settings: Settings,
    inherited: bool,
)
    requires
        settings.no_swallows,
    ensures
        fragment(node, id, settings, inherited) == fragment(
            without_swallows(node),
            id,
            settings,
            inherited,
        ),
    decreases node, node.nodes.len() + 1,
{
    lemma_own_part_without_swallows(node, id, settings, shows(node, settings, inherited));
    lemma_children_without_swallows(
        node,
        node.nodes.len(),
        id,
        settings,
        expands(node, settings, inherited),
        shows(node, settings, inherited),
    );
}

/// The children of a container are drawn alike with and without their
/// swallow criteria, where the settings leave the criteria out.
pub proof fn lemma_children_without_swallows(
    node: NodeView,
    n: nat,
    id: Seq<char>,
    settings: Settings,
    expanding: bool,
    shown: bool,
)
    requires
        settings.no_swallows,
        n <= node.nodes.len(),
    ensures
        children_part(node.nodes, n, id, settings, expanding, shown) == children_part(
            without_swallows(node).nodes,
            n,
            id,
            settings,
            expanding,
            shown,
        ),
    decreases node, n,
{
    if n > 0 {
        let bare = without_swallows(node);
        lemma_children_without_swallows(node, (n - 1) as nat, id, settings, expanding, shown);
        lemma_focus_without_swallows(node.nodes[n - 1]);
        let child = child_id(id, (n - 1) as nat);
        lemma_swallows_left_out(node.nodes[n - 1], child, settings, expanding);
        assert(bare.nodes[n - 1] == without_swallows(node.nodes[n - 1]));
    }
}

/// The swallow criteria of a container that has some are drawn where the
/// settings do not leave them out.
pub proof fn lemma_swallows_drawn(node: NodeView, id: Seq<char>, settings: Settings)
    requires
        node.swallows.len() > 0,
        !settings.no_swallows,
    ensures
        !hides_swallows(node, settings),
        swallow_block(node, id, settings).len() > 0,
{
    reveal_strlit("_swallows:HEAD");
}

/// A name of at most [`CUT_AT`] characters is shown as it is.
pub proof fn lemma_short_name_is_kept(name: Seq<char>)
    requires
        name.len() <= CUT_AT,
    ensures
        shown_name(Some(name)) == name,
{
}

/// Of a name of more than [`CUT_AT`] characters, the first [`CUT_AT`] are
/// shown, escaped, and three dots after them.
pub proof fn lemma_long_name_is_cut(name: Seq<char>)
    requires
        name.len() > CUT_AT,
    ensures
        shown_name(Some(name)) == escaped(name, CUT_AT as nat) + "..."@,
{
}

/// Whether no container of `node` is of the kind from which on everything
/// is drawn.
pub open spec fn never_expands(node: NodeView, settings: Settings) -> bool
    decreases node,
{
    &&& node.tree_type != settings.expand_from
    &&& forall|i: int|
        0 <= i < node.nodes.len() ==> never_expands(#[trigger] node.nodes[i], settings)
}

/// Whether `a` and `b` are the same on the way to the focus: they are alike
/// but for their children, they have equally many children, a child of the
/// one leads to the focus just where the child of the other at its position
/// does, and the children that lead to the focus are the same on the way to
/// the focus in their turn. What is below a child that does not lead to the
/// focus is left open.
pub open spec fn same_on_the_way(a: NodeView, b: NodeView) -> bool
    decreases a,
{
    &&& a == NodeView { nodes: a.nodes, ..b }
    &&& a.nodes.len() == b.nodes.len()
    &&& forall|i: int|
        0 <= i < a.nodes.len() ==> has_focus(#[trigger] a.nodes[i]) == has_focus(b.nodes[i])
    &&& forall|i: int|
        0 <= i < a.nodes.len() && has_focus(a.nodes[i]) ==> same_on_the_way(
            #[trigger] a.nodes[i],
            b.nodes[i],
        )
}

/// Two containers that are the same on the way to the focus lead to the
/// focus alike.
pub proof fn lemma_same_focus(a: NodeView, b: NodeView)
    requires
        same_on_the_way(a, b),
    ensures
        has_focus(a) == has_focus(b),
{
    if has_focus(a) && !a.focused {
        let i = choose|i: int| 0 <= i < a.nodes.len() && has_focus(#[trigger] a.nodes[i]);
        assert(has_focus(b.nodes[i]));
    }
    if has_focus(b) && !b.focused {
        let i = choose|i: int| 0 <= i < b.nodes.len() && has_focus(#[trigger] b.nodes[i]);
        assert(has_focus(a.nodes[i]) == has_focus(b.nodes[i]));
    }
}

/// Only the way to the focus is drawn where nothing is expanded: two trees
/// without a container of the kind to expand from are drawn alike if they are
/// the same on the way to the focus. Whatever is off the way, a sibling of a
/// container on it or anything below such a sibling, leaves no trace in the
/// drawing.
pub proof fn lemma_only_the_way_is_drawn(
    a: NodeView,
    b: NodeView,
    id: Seq<char>,
    settings: Settings,
)
    requires
        never_expands(a, settings),
        never_expands(b, settings),
        same_on_the_way(a, b),
    ensures
        fragment(a, id, settings, false) == fragment(b, id, settings, false),
    decreases a, a.nodes.len() + 1,
{
    reveal(own_part);
    lemma_same_focus(a, b);
    lemma_only_the_way_below(a, b, a.nodes.len(), id, settings, shows(a, settings, false));
}

/// The first `n` children of two containers that are the same on the way
/// to the focus are drawn alike where nothing is expanded.
pub proof fn lemma_only_the_way_below(
    a: NodeView,
    b: NodeView,
    n: nat,
    id: Seq<char>,
    settings: Settings,
    shown: bool,
)
    requires
        never_expands(a, settings),
        never_expands(b, settings),
        same_on_the_way(a, b),
        n <= a.nodes.len(),
    ensures
        children_part(a.nodes, n, id, settings, false, shown) == children_part(
            b.nodes,
            n,
            id,
            settings,
            false,
            shown,
        ),
    decreases a, n,
{
    if n > 0 {
        lemma_only_the_way_below(a, b, (n - 1) as nat, id, settings, shown);
        assert(has_focus(a.nodes[n - 1]) == has_focus(b.nodes[n - 1]));
        if has_focus(a.nodes[n - 1]) {
            assert(same_on_the_way(a.nodes[n - 1], b.nodes[n - 1]));
            assert(never_expands(a.nodes[n - 1], settings));
            assert(never_expands(b.nodes[n - 1], settings));
            lemma_only_the_way_is_drawn(
                a.nodes[n - 1],
                b.nodes[n - 1],
                child_id(id, (n - 1) as nat),
                settings,
            );
        }
    }
}

/// A child that does not lead to the focus is not drawn by a container
/// that does not draw everything below it; one that leads to it is drawn
/// after the children before it, with the edge to it where its parent is
/// shown.
pub proof fn lemma_child_on_the_way(
    nodes: Seq<NodeView>,
    n: nat,
    id: Seq<char>,
    settings: Settings,
    shown: bool,
)
    requires
        0 < n <= nodes.len(),
    ensures
        !has_focus(nodes[n - 1]) ==> children_part(nodes, n, id, settings, false, shown)
            == children_part(nodes, (n - 1) as nat, id, settings, false, shown),
        has_focus(nodes[n - 1]) ==> children_part(nodes, n, id, settings, false, shown)
            == children_part(nodes, (n - 1) as nat, id, settings, false, shown) + fragment(
            nodes[n - 1],
            child_id(id, (n - 1) as nat),
            settings,
            false,
        ) + (if shown {
            edge(id, child_id(id, (n - 1) as nat))
        } else {
            Seq::empty()
        }),
{
}

/// Whether the label of an element writes `c` otherwise than as itself.
pub open spec fn needs_escape(c: char) -> bool {
    c == '\\' || c == '"' || c == '|' || c == '^' || c == '<' || c == '>'
}

/// What is written for each of the six characters that the label of an
/// element does not take as they are; any other character is written as
/// itself.
pub proof fn lemma_escape(c: char)
    ensures
        escape('\\') == seq!['\\', '\\'],
        escape('"') == seq!['\\', '"'],
        escape('|') == seq!['\\', '|'],
        escape('^') == seq!['\\', '^'],
        escape('<') == seq!['&', 'l', 't', ';'],
        escape('>') == seq!['&', 'g', 't', ';'],
        !needs_escape(c) ==> escape(c) == seq![c],
{
    reveal_strlit("\\\\");
    reveal_strlit("\\\"");
    reveal_strlit("\\|");
    reveal_strlit("\\^");
    reveal_strlit("&lt;");
    reveal_strlit("&gt;");
    assert(escape('\\') =~= seq!['\\', '\\']);
    assert(escape('"') =~= seq!['\\', '"']);
    assert(escape('|') =~= seq!['\\', '|']);
    assert(escape('^') =~= seq!['\\', '^']);
    assert(escape('<') =~= seq!['&', 'l', 't', ';']);
    assert(escape('>') =~= seq!['&', 'g', 't', ';']);
}

/// Characters that need no escape are written as they are: where none of
/// the first `n` characters of a text needs one, these characters escaped are
/// these characters.
pub proof fn lemma_plain_text_is_kept(text: Seq<char>, n: nat)
    requires
        n <= text.len(),
        forall|i: int| 0 <= i < n ==> !needs_escape(#[trigger] text[i]),
    ensures
        escaped(text, n) == text.take(n as int),
    decreases n,
{
    if n > 0 {
        lemma_plain_text_is_kept(text, (n - 1) as nat);
        assert(!needs_escape(text[n - 1]));
        assert(text.take(n - 1) + seq![text[n - 1]] =~= text.take(n as int));
    } else {
        assert(text.take(0) =~= Seq::<char>::empty());
    }
}

} // verus!
