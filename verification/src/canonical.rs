//! The canonical JSON form of a tree, and the law that reading it gives the
//! tree back.

use vstd::prelude::*;
use crate::decode::{
    all_objects, all_texts, border_of, children_of, collected, criteria_in, criteria_of, decode,
    decode_all, floating_of, focused_of, geometry_of, kind_of, layout_of, marks_of, name_of,
    percent_of, swallows_in, swallows_of, width_of,
};
use crate::fraction::FractionView;
use crate::geometry::{coordinate, TreeGeometry};
use crate::json::{field, position, position_from, JsonView, MemberView, NumberView};
use crate::kinds::{BorderType, FloatMode, Layout, TreeType};
use crate::node::{distinct_keys, NodeView, SwallowView};

verus! {

/// A member that an object has or has not.
pub struct Entry {
    pub key: Seq<char>,
    pub value: Option<JsonView>,
}

/// The members that the first `n` of `entries` give: one for each entry
/// with a value, in their order.
pub open spec fn assemble(entries: Seq<Entry>, n: nat) -> Seq<MemberView>
    decreases n,
{
    if n == 0 || n > entries.len() {
        Seq::empty()
    } else {
        match entries[n - 1].value {
            Some(value) => assemble(entries, (n - 1) as nat).push(
                MemberView { key: entries[n - 1].key, value },
            ),
            None => assemble(entries, (n - 1) as nat),
        }
    }
}

/// Whether no key occurs twice in `entries`.
pub open spec fn distinct_entries(entries: Seq<Entry>) -> bool {
    forall|i: int, j: int|
        0 <= i < j < entries.len() ==> (#[trigger] entries[i]).key != (#[trigger] entries[j]).key
}

/// The canonical form of a share of space.
pub open spec fn encode_fraction(value: FractionView) -> JsonView {
    match value {
        FractionView::Whole(u) => JsonView::Number(NumberView::PosInt(u)),
        FractionView::Signed(i) => JsonView::Number(NumberView::NegInt(i)),
        FractionView::Float(f) => JsonView::Number(NumberView::Float(f)),
    }
}

/// The canonical form of an integer.
pub open spec fn encode_integer(i: i64) -> JsonView {
    if i < 0 {
        JsonView::Number(NumberView::NegInt(i))
    } else {
        JsonView::Number(NumberView::PosInt(i as u64))
    }
}

/// The members of the canonical form of a rectangle.
pub open spec fn geometry_entries(geometry: TreeGeometry) -> Seq<Entry> {
    seq![
        Entry {
            key: "height"@,
            value: Some(JsonView::Number(NumberView::PosInt(geometry.height))),
        },
        Entry { key: "width"@, value: Some(JsonView::Number(NumberView::PosInt(geometry.width))) },
        Entry { key: "x"@, value: Some(JsonView::Number(NumberView::PosInt(geometry.x))) },
        Entry { key: "y"@, value: Some(JsonView::Number(NumberView::PosInt(geometry.y))) },
    ]
}

/// The canonical form of a rectangle.
pub open spec fn encode_geometry(geometry: TreeGeometry) -> JsonView {
    JsonView::Object(assemble(geometry_entries(geometry), 4))
}

/// The canonical form of swallow criteria: an array of one object, with a
/// text for each criterion.
pub open spec fn encode_swallows(swallows: Seq<SwallowView>) -> JsonView {
    JsonView::Array(seq![JsonView::Object(swallow_members(swallows))])
}

/// The canonical forms of `nodes`, in their order.
pub open spec fn encode_all(nodes: Seq<NodeView>) -> Seq<JsonView>
    decreases nodes, 1nat,
{
    Seq::new(
        nodes.len(),
        |i: int|
            if 0 <= i < nodes.len() {
                encode(nodes[i])
            } else {
                JsonView::Null
            },
    )
}

/// The members of the canonical form of `node`, those that it has and
/// those that it has not.
pub open spec fn entries(node: NodeView) -> Seq<Entry>
    decreases node, 1nat,
{
    seq![
        Entry { key: "border"@, value: Some(JsonView::Text(node.border.code())) },
        Entry { key: "floating"@, value: Some(JsonView::Text(node.floating.code())) },
        Entry {
            key: "marks"@,
            value: Some(
                JsonView::Array(Seq::new(node.marks.len(), |i: int| JsonView::Text(node.marks[i]))),
            ),
        },
        Entry { key: "percent"@, value: Some(encode_fraction(node.percent)) },
        Entry { key: "type"@, value: Some(JsonView::Text(node.tree_type.code())) },
        Entry {
            key: "layout"@,
            value: match node.layout {
                Some(layout) => Some(JsonView::Text(layout.code())),
                None => None,
            },
        },
        Entry {
            key: "name"@,
            value: match node.name {
                Some(name) => Some(JsonView::Text(name)),
                None => None,
            },
        },
        Entry {
            key: "geometry"@,
            value: match node.geometry {
                Some(geometry) => Some(encode_geometry(geometry)),
                None => None,
            },
        },
        Entry { key: "nodes"@, value: Some(JsonView::Array(encode_all(node.nodes))) },
        Entry { key: "swallows"@, value: Some(encode_swallows(node.swallows)) },
        Entry {
            key: "current_border_width"@,
            value: match node.current_border_width {
                Some(width) => Some(encode_integer(width)),
                None => None,
            },
        },
        Entry { key: "focused"@, value: Some(JsonView::Bool(node.focused)) },
    ]
}

/// The canonical JSON form of `node`: an object with the members that
/// describe it, each optional one only where the container has the property.
pub open spec fn encode(node: NodeView) -> JsonView
    decreases node, 2nat,
{
    JsonView::Object(assemble(entries(node), 12))
}

/// Where `position_from` gives an index below the length, the member there
/// has the key, and none from `from` up to it has.
pub proof fn lemma_position_found(members: Seq<MemberView>, key: Seq<char>, from: int)
    requires
        0 <= from <= members.len(),
    ensures
        from <= position_from(members, key, from) <= members.len(),
        position_from(members, key, from) < members.len() ==> members[position_from(
            members,
            key,
            from,
        )].key == key,
        forall|i: int| from <= i < position_from(members, key, from) ==> members[i].key != key,
    decreases members.len() - from,
{
    if from < members.len() && members[from].key != key {
        lemma_position_found(members, key, from + 1);
    }
}

/// A member that is added at the end is found under its key where no
/// earlier member has that key; the other lookups stay as they were.
pub proof fn lemma_field_push(members: Seq<MemberView>, added: MemberView, key: Seq<char>)
    ensures
        field(members.push(added), key) == (match field(members, key) {
            Some(value) => Some(value),
            None => if added.key == key {
                Some(added.value)
            } else {
                None
            },
        }),
{
    let longer = members.push(added);
    let at = position(members, key);
    lemma_position_found(members, key, 0);
    if at < members.len() {
        assert(longer[at] == members[at]);
        assert forall|i: int| 0 <= i < at implies longer[i].key != key by {
            assert(longer[i] == members[i]);
        }
        crate::json::lemma_position_from(longer, key, 0, at);
    } else {
        assert forall|i: int| 0 <= i < members.len() implies longer[i].key != key by {
            assert(longer[i] == members[i]);
        }
        if added.key == key {
            crate::json::lemma_position_from(longer, key, 0, members.len() as int);
        } else {
            crate::json::lemma_position_from(longer, key, 0, longer.len() as int);
        }
    }
}

/// Among the members that entries with distinct keys give, each entry is
/// found under its key with its value, where it is among the first `n` and
/// has one.
pub proof fn lemma_assemble_field(entries: Seq<Entry>, n: nat, i: int)
    requires
        distinct_entries(entries),
        n <= entries.len(),
        0 <= i < entries.len(),
    ensures
        field(assemble(entries, n), entries[i].key) == (if i < n {
            entries[i].value
        } else {
            None
        }),
    decreases n,
{
    if n > 0 {
        lemma_assemble_field(entries, (n - 1) as nat, i);
        let before = assemble(entries, (n - 1) as nat);
        match entries[n - 1].value {
            Some(value) => {
                lemma_field_push(
                    before,
                    MemberView { key: entries[n - 1].key, value },
                    entries[i].key,
                );
                if i != n - 1 {
                    if i < n - 1 {
                        assert(entries[i].key != entries[n - 1].key);
                    } else {
                        assert(entries[n - 1].key != entries[i].key);
                    }
                }
            },
            None => {},
        }
    } else {
        assert(position_from(Seq::<MemberView>::empty(), entries[i].key, 0) == 0);
    }
}

/// Each border is the one that its name names.
pub proof fn lemma_border_code(border: BorderType)
    ensures
        BorderType::named(border.code()) == Some(border),
{
    reveal_strlit("pixel");
    reveal_strlit("none");
    reveal_strlit("normal");
    assert("pixel"@.len() == 5 && "none"@.len() == 4 && "normal"@.len() == 6);
}

/// Each floating mode is the one that its name names.
pub proof fn lemma_floating_code(floating: FloatMode)
    ensures
        FloatMode::named(floating.code()) == Some(floating),
{
    reveal_strlit("auto_off");
    reveal_strlit("auto_on");
    reveal_strlit("user_on");
    reveal_strlit("user_off");
    assert("auto_off"@.len() == 8 && "auto_on"@.len() == 7);
    assert("user_off"@.len() == 8 && "user_on"@.len() == 7);
    assert("auto_off"@[0] != "user_off"@[0]);
    assert("auto_on"@[0] != "user_on"@[0]);
}

/// Each layout is the one that its name names.
pub proof fn lemma_layout_code(layout: Layout)
    ensures
        Layout::named(layout.code()) == Some(layout),
{
    reveal_strlit("tabbed");
    reveal_strlit("splitv");
    reveal_strlit("splith");
    reveal_strlit("stacked");
    reveal_strlit("output");
    reveal_strlit("dockarea");
    assert("tabbed"@.len() == 6 && "splitv"@.len() == 6 && "splith"@.len() == 6);
    assert("stacked"@.len() == 7 && "output"@.len() == 6 && "dockarea"@.len() == 8);
    assert("tabbed"@[0] != "splitv"@[0]);
    assert("tabbed"@[0] != "splith"@[0]);
    assert("tabbed"@[0] != "output"@[0]);
    assert("splitv"@[5] != "splith"@[5]);
    assert("splitv"@[0] != "output"@[0]);
    assert("splith"@[0] != "output"@[0]);
}

/// Each kind of container is the one that its name names.
pub proof fn lemma_kind_code(kind: TreeType)
    ensures
        TreeType::named(kind.code()) == Ok::<TreeType, Seq<char>>(kind),
{
    reveal_strlit("root");
    reveal_strlit("output");
    reveal_strlit("workspace");
    reveal_strlit("dockarea");
    reveal_strlit("con");
    reveal_strlit("floating_con");
    assert("root"@.len() == 4 && "output"@.len() == 6 && "workspace"@.len() == 9);
    assert("dockarea"@.len() == 8 && "con"@.len() == 3 && "floating_con"@.len() == 12);
}

/// No two members of the canonical form of a container have the same key.
pub proof fn lemma_entries_distinct(node: NodeView)
    ensures
        entries(node).len() == 12,
        distinct_entries(entries(node)),
{
    reveal_strlit("border");
    reveal_strlit("floating");
    reveal_strlit("marks");
    reveal_strlit("percent");
    reveal_strlit("type");
    reveal_strlit("layout");
    reveal_strlit("name");
    reveal_strlit("geometry");
    reveal_strlit("nodes");
    reveal_strlit("swallows");
    reveal_strlit("current_border_width");
    reveal_strlit("focused");
    let all = entries(node);
    assert forall|i: int, j: int| 0 <= i < j < all.len() implies (#[trigger] all[i]).key != (
    #[trigger] all[j]).key by {
        assert(all[i].key.len() != all[j].key.len() || all[i].key[0] != all[j].key[0]);
    }
}

/// No two members of the canonical form of a rectangle have the same key.
pub proof fn lemma_geometry_entries_distinct(geometry: TreeGeometry)
    ensures
        distinct_entries(geometry_entries(geometry)),
{
    reveal_strlit("height");
    reveal_strlit("width");
    reveal_strlit("x");
    reveal_strlit("y");
    let all = geometry_entries(geometry);
    assert forall|i: int, j: int| 0 <= i < j < all.len() implies (#[trigger] all[i]).key != (
    #[trigger] all[j]).key by {
        assert(all[i].key.len() != all[j].key.len() || all[i].key[0] != all[j].key[0]);
    }
}

/// Reading the canonical form of a rectangle gives the rectangle.
pub proof fn lemma_geometry_round_trip(geometry: TreeGeometry)
    ensures
        TreeGeometry::of(encode_geometry(geometry)) == Ok::<TreeGeometry, Seq<char>>(geometry),
{
    let all = geometry_entries(geometry);
    lemma_geometry_entries_distinct(geometry);
    lemma_assemble_field(all, 4, 0);
    lemma_assemble_field(all, 4, 1);
    lemma_assemble_field(all, 4, 2);
    lemma_assemble_field(all, 4, 3);
    assert(coordinate(encode_geometry(geometry), "height"@) == Ok::<u64, Seq<char>>(
        geometry.height,
    ));
    assert(coordinate(encode_geometry(geometry), "width"@) == Ok::<u64, Seq<char>>(geometry.width));
    assert(coordinate(encode_geometry(geometry), "x"@) == Ok::<u64, Seq<char>>(geometry.x));
    assert(coordinate(encode_geometry(geometry), "y"@) == Ok::<u64, Seq<char>>(geometry.y));
}

/// Criteria with distinct keys, put one after the other into an empty
/// collection, make the collection of these criteria in their order.
pub proof fn lemma_collected_distinct(swallows: Seq<SwallowView>, n: nat)
    requires
        distinct_keys(swallows),
        n <= swallows.len(),
    ensures
        collected(swallows, n) == swallows.take(n as int),
    decreases n,
{
    if n > 0 {
        lemma_collected_distinct(swallows, (n - 1) as nat);
        let before = swallows.take(n - 1);
        let last = swallows[n - 1];
        assert forall|i: int| 0 <= i < before.len() implies before[i].key != last.key by {
            assert(before[i] == swallows[i]);
        }
        crate::decode::lemma_slot(before, last.key, before.len(), before.len());
        assert(before.push(last) =~= swallows.take(n as int));
    } else {
        assert(swallows.take(0) =~= Seq::<SwallowView>::empty());
    }
}

/// The members of the object that holds `swallows` in canonical form.
pub open spec fn swallow_members(swallows: Seq<SwallowView>) -> Seq<MemberView> {
    Seq::new(
        swallows.len(),
        |i: int| MemberView { key: swallows[i].key, value: JsonView::Text(swallows[i].value) },
    )
}

/// The members of the canonical form of swallow criteria give these
/// criteria.
pub proof fn lemma_criteria_round_trip(swallows: Seq<SwallowView>, n: nat)
    requires
        n <= swallows.len(),
    ensures
        criteria_of(swallow_members(swallows), n) == Ok::<Seq<SwallowView>, Seq<char>>(
            swallows.take(n as int),
        ),
    decreases n,
{
    if n > 0 {
        lemma_criteria_round_trip(swallows, (n - 1) as nat);
        assert(swallows.take(n - 1).push(swallows[n - 1]) =~= swallows.take(n as int));
    } else {
        assert(swallows.take(0) =~= Seq::<SwallowView>::empty());
    }
}

/// Reading the canonical form of swallow criteria without double keys gives
/// these criteria.
pub proof fn lemma_swallows_round_trip(swallows: Seq<SwallowView>)
    requires
        distinct_keys(swallows),
    ensures
        swallows_in(encode_swallows(swallows)) == Ok::<Seq<SwallowView>, Seq<char>>(swallows),
{
    let members = swallow_members(swallows);
    let items = seq![JsonView::Object(members)];
    assert(encode_swallows(swallows) == JsonView::Array(items));
    lemma_criteria_round_trip(swallows, swallows.len());
    assert(swallows.take(swallows.len() as int) =~= swallows);
    assert(criteria_in(items, 0) == Ok::<Seq<SwallowView>, Seq<char>>(Seq::empty()));
    assert(Seq::<SwallowView>::empty() + swallows =~= swallows);
    assert(criteria_in(items, 1) == Ok::<Seq<SwallowView>, Seq<char>>(swallows));
    lemma_collected_distinct(swallows, swallows.len());
}

/// Reading the canonical form of a tree gives the tree: what is written
/// down of a tree in which no container holds a swallow criterion twice is
/// read back as the same tree.
pub proof fn lemma_round_trip(node: NodeView)
    requires
        node.well_formed(),
    ensures
        decode(encode(node)) == Ok::<NodeView, Seq<char>>(node),
    decreases node, 0nat,
{
    let all = entries(node);
    let members = assemble(all, 12);
    lemma_entries_distinct(node);
    lemma_assemble_field(all, 12, 0);
    lemma_assemble_field(all, 12, 1);
    lemma_assemble_field(all, 12, 2);
    lemma_assemble_field(all, 12, 3);
    lemma_assemble_field(all, 12, 4);
    lemma_assemble_field(all, 12, 5);
    lemma_assemble_field(all, 12, 6);
    lemma_assemble_field(all, 12, 7);
    lemma_assemble_field(all, 12, 8);
    lemma_assemble_field(all, 12, 9);
    lemma_assemble_field(all, 12, 10);
    lemma_assemble_field(all, 12, 11);
    assert(border_of(members) == Ok::<BorderType, Seq<char>>(node.border)) by {
        lemma_border_code(node.border);
        assert(field(members, "border"@) == all[0].value);
    }
    assert(floating_of(members) == Ok::<FloatMode, Seq<char>>(node.floating)) by {
        lemma_floating_code(node.floating);
        assert(field(members, "floating"@) == all[1].value);
    }
    assert(marks_of(members) == Ok::<Seq<Seq<char>>, Seq<char>>(node.marks)) by {
        assert(field(members, "marks"@) == all[2].value);
        let items = Seq::new(node.marks.len(), |i: int| JsonView::Text(node.marks[i]));
        assert(all_texts(items));
        assert(Seq::new(items.len(), |i: int| items[i]->Text_0) =~= node.marks);
    }
    assert(percent_of(members) == Ok::<FractionView, Seq<char>>(node.percent)) by {
        assert(field(members, "percent"@) == all[3].value);
    }
    assert(kind_of(members) == Ok::<TreeType, Seq<char>>(node.tree_type)) by {
        lemma_kind_code(node.tree_type);
        assert(field(members, "type"@) == all[4].value);
    }
    assert(layout_of(members) == Ok::<Option<Layout>, Seq<char>>(node.layout)) by {
        assert(field(members, "layout"@) == all[5].value);
        if node.layout is Some {
            lemma_layout_code(node.layout->Some_0);
        }
    }
    assert(name_of(members) == node.name) by {
        assert(field(members, "name"@) == all[6].value);
    }
    assert(geometry_of(members) == Ok::<Option<TreeGeometry>, Seq<char>>(node.geometry)) by {
        assert(field(members, "geometry"@) == all[7].value);
        if node.geometry is Some {
            lemma_geometry_round_trip(node.geometry->Some_0);
        }
    }
    assert(children_of(members) == Ok::<Seq<NodeView>, Seq<char>>(node.nodes)) by {
        assert(field(members, "nodes"@) == all[8].value);
        let items = encode_all(node.nodes);
        assert forall|i: int| 0 <= i < items.len() implies (#[trigger] items[i]) is Object by {
            assert(items[i] == encode(node.nodes[i]));
        }
        assert(all_objects(items));
        lemma_children_round_trip(node.nodes, node.nodes.len());
        assert(node.nodes.take(node.nodes.len() as int) =~= node.nodes);
    }
    assert(swallows_of(members) == Ok::<Seq<SwallowView>, Seq<char>>(node.swallows)) by {
        assert(field(members, "swallows"@) == all[9].value);
        lemma_swallows_round_trip(node.swallows);
    }
    assert(width_of(members) == Ok::<Option<i64>, Seq<char>>(node.current_border_width)) by {
        assert(field(members, "current_border_width"@) == all[10].value);
    }
    assert(focused_of(members) == node.focused) by {
        assert(field(members, "focused"@) == all[11].value);
    }
}

/// Reading the canonical forms of the first `n` of `nodes` gives these
/// containers.
pub proof fn lemma_children_round_trip(nodes: Seq<NodeView>, n: nat)
    requires
        n <= nodes.len(),
        forall|i: int| 0 <= i < nodes.len() ==> (#[trigger] nodes[i]).well_formed(),
    ensures
        decode_all(encode_all(nodes), n) == Ok::<Seq<NodeView>, Seq<char>>(nodes.take(n as int)),
    decreases nodes, n,
{
    if n > 0 {
        lemma_children_round_trip(nodes, (n - 1) as nat);
        lemma_round_trip(nodes[n - 1]);
        assert(encode_all(nodes)[n - 1] == encode(nodes[n - 1]));
        assert(nodes.take(n - 1).push(nodes[n - 1]) =~= nodes.take(n as int));
    } else {
        assert(nodes.take(0) =~= Seq::<NodeView>::empty());
    }
}

} // verus!
