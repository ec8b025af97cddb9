//! Reading a tree from its JSON form.
//!
//! [`decode`] says what tree a JSON value describes, or why it describes
//! none; [`Node::try_from`] computes it. The members of an object are read
//! in a fixed order, and the first that is at fault decides the refusal.

use vstd::prelude::*;
use crate::fraction::{Fraction, FractionView};
use crate::geometry::TreeGeometry;
use crate::json::{
    field, items_view, members_view, position, Json, JsonView, Member, MemberView, Number,
    NumberView,
};
use crate::kinds::{BorderType, FloatMode, Layout, TreeType};
use crate::node::{nodes_view, swallows_view, texts_view, Node, NodeView, Swallow, SwallowView};
use crate::text::{decimal, decimal_text, signed_decimal, signed_decimal_text};
use crate::utils::{fraction_of, i64_of, try_f64, try_i64, try_string, try_vec};

verus! {

/// The refusal of an object without the member `key`.
pub open spec fn missing(key: Seq<char>) -> Seq<char> {
    "Missing \""@ + key + "\" field"@
}

/// The member `key` of `members`, which must be there.
pub open spec fn required(members: Seq<MemberView>, key: Seq<char>) -> Result<JsonView, Seq<char>> {
    match field(members, key) {
        Some(value) => Ok(value),
        None => Err(missing(key)),
    }
}

/// The border of the container that `members` describe.
pub open spec fn border_of(members: Seq<MemberView>) -> Result<BorderType, Seq<char>> {
    match required(members, "border"@) {
        Ok(value) => BorderType::of(value),
        Err(e) => Err(e),
    }
}

/// The floating mode of the container that `members` describe.
pub open spec fn floating_of(members: Seq<MemberView>) -> Result<FloatMode, Seq<char>> {
    match required(members, "floating"@) {
        Ok(value) => FloatMode::of(value),
        Err(e) => Err(e),
    }
}

/// Whether every one of `items` is a text.
pub open spec fn all_texts(items: Seq<JsonView>) -> bool {
    forall|i: int| 0 <= i < items.len() ==> (#[trigger] items[i]) is Text
}

/// The marks that `value` lists: an array of texts.
pub open spec fn marks_in(value: JsonView) -> Result<Seq<Seq<char>>, Seq<char>> {
    match value {
        JsonView::Array(items) => if all_texts(items) {
            Ok(Seq::new(items.len(), |i: int| items[i]->Text_0))
        } else {
            Err("Marks contain non-strings"@)
        },
        _ => Err("Invalid JSON value type for marks"@),
    }
}

/// The marks of the container that `members` describe.
pub open spec fn marks_of(members: Seq<MemberView>) -> Result<Seq<Seq<char>>, Seq<char>> {
    match required(members, "marks"@) {
        Ok(value) => marks_in(value),
        Err(e) => Err(e),
    }
}

/// The share of space that `value` gives: nothing for `null`, else a number
/// read as a double.
pub open spec fn percent_in(value: JsonView) -> Result<FractionView, Seq<char>> {
    match value {
        JsonView::Null => Ok(FractionView::Whole(0)),
        _ => fraction_of(value),
    }
}

/// The share of space of the container that `members` describe.
pub open spec fn percent_of(members: Seq<MemberView>) -> Result<FractionView, Seq<char>> {
    match required(members, "percent"@) {
        Ok(value) => percent_in(value),
        Err(e) => Err(e),
    }
}

/// The kind of the container that `members` describe.
pub open spec fn kind_of(members: Seq<MemberView>) -> Result<TreeType, Seq<char>> {
    match required(members, "type"@) {
        Ok(value) => TreeType::of(value),
        Err(e) => Err(e),
    }
}

/// The layout of the container that `members` describe, where they name one.
pub open spec fn layout_of(members: Seq<MemberView>) -> Result<Option<Layout>, Seq<char>> {
    match field(members, "layout"@) {
        Some(value) => match Layout::of(value) {
            Ok(layout) => Ok(Some(layout)),
            Err(e) => Err(e),
        },
        None => Ok(None),
    }
}

/// The name of the container that `members` describe, where they have the
/// member: its text, or `(null)` for a member that is no text.
pub open spec fn name_of(members: Seq<MemberView>) -> Option<Seq<char>> {
    match field(members, "name"@) {
        Some(JsonView::Text(name)) => Some(name),
        Some(_) => Some("(null)"@),
        None => None,
    }
}

/// The rectangle of the container that `members` describe, where they give
/// one.
pub open spec fn geometry_of(members: Seq<MemberView>) -> Result<Option<TreeGeometry>, Seq<char>> {
    match field(members, "geometry"@) {
        Some(value) => match TreeGeometry::of(value) {
            Ok(geometry) => Ok(Some(geometry)),
            Err(e) => Err(e),
        },
        None => Ok(None),
    }
}

/// The border width of the container that `members` describe, where they
/// give one.
pub open spec fn width_of(members: Seq<MemberView>) -> Result<Option<i64>, Seq<char>> {
    match field(members, "current_border_width"@) {
        Some(value) => match i64_of(value) {
            Ok(width) => Ok(Some(width)),
            Err(e) => Err(e),
        },
        None => Ok(None),
    }
}

/// Whether the container that `members` describe has the focus: what the
/// member `focused` says where it is a boolean, and no otherwise.
pub open spec fn focused_of(members: Seq<MemberView>) -> bool {
    match field(members, "focused"@) {
        Some(JsonView::Bool(focused)) => focused,
        _ => false,
    }
}

/// The refusal of the swallow criterion `key`, whose value is neither a
/// text nor a number.
pub open spec fn unfit(key: Seq<char>) -> Seq<char> {
    "Key \""@ + key + "\" has non-string or non-number value"@
}

/// The text of the swallow criterion `key` with the value `value`: a text
/// as it is, an integer in decimal notation, a number that is no integer as
/// it is shown. Anything else is refused.
pub open spec fn criterion_text(key: Seq<char>, value: JsonView) -> Result<Seq<char>, Seq<char>> {
    match value {
        JsonView::Text(text) => Ok(text),
        JsonView::Number(NumberView::PosInt(u)) => Ok(decimal(u as nat)),
        JsonView::Number(NumberView::NegInt(i)) => Ok(signed_decimal(i as int)),
        JsonView::Number(NumberView::Float(f)) => Ok(f.shown),
        _ => Err(unfit(key)),
    }
}

/// The criteria that the first `n` of `members` give, in their order, or
/// the refusal of the first member that gives none.
pub open spec fn criteria_of(members: Seq<MemberView>, n: nat) -> Result<
    Seq<SwallowView>,
    Seq<char>,
>
    decreases n,
{
    if n == 0 || n > members.len() {
        Ok(Seq::empty())
    } else {
        match criteria_of(members, (n - 1) as nat) {
            Ok(before) => match criterion_text(members[n - 1].key, members[n - 1].value) {
                Ok(text) => Ok(before.push(SwallowView { key: members[n - 1].key, value: text })),
                Err(e) => Err(e),
            },
            Err(e) => Err(e),
        }
    }
}

/// The criteria that the first `n` of `items` give, in their order: each
/// item must be an object, and gives the criteria of its members.
pub open spec fn criteria_in(items: Seq<JsonView>, n: nat) -> Result<Seq<SwallowView>, Seq<char>>
    decreases n,
{
    if n == 0 || n > items.len() {
        Ok(Seq::empty())
    } else {
        match criteria_in(items, (n - 1) as nat) {
            Ok(before) => match items[n - 1] {
                JsonView::Object(members) => match criteria_of(members, members.len()) {
                    Ok(more) => Ok(before + more),
                    Err(e) => Err(e),
                },
                _ => Err("non-object in swallows"@),
            },
            Err(e) => Err(e),
        }
    }
}

/// The index of the criterion with the key `key` among the first `n` of
/// `swallows`, or `n` where none of them has it. (The least such index, where
/// there are several.)
pub open spec fn slot(swallows: Seq<SwallowView>, key: Seq<char>, n: nat) -> nat
    decreases n,
{
    if n == 0 || n > swallows.len() {
        n
    } else {
        let before = slot(swallows, key, (n - 1) as nat);
        if before < n - 1 {
            before
        } else if swallows[n - 1].key == key {
            (n - 1) as nat
        } else {
            n
        }
    }
}

/// `swallows` with the criterion `entry` put in: it takes the place of the
/// one with its key, or comes last where no criterion has its key.
pub open spec fn put(swallows: Seq<SwallowView>, entry: SwallowView) -> Seq<SwallowView> {
    let at = slot(swallows, entry.key, swallows.len());
    if at < swallows.len() {
        swallows.update(at as int, entry)
    } else {
        swallows.push(entry)
    }
}

/// The first `n` of `entries`, put one after the other into an empty
/// collection: each key once, at the place of its first entry and with the
/// value of its last.
pub open spec fn collected(entries: Seq<SwallowView>, n: nat) -> Seq<SwallowView>
    decreases n,
{
    if n == 0 || n > entries.len() {
        Seq::empty()
    } else {
        put(collected(entries, (n - 1) as nat), entries[n - 1])
    }
}

/// The swallow criteria that `value` lists: an array of objects.
pub open spec fn swallows_in(value: JsonView) -> Result<Seq<SwallowView>, Seq<char>> {
    match value {
        JsonView::Array(items) => match criteria_in(items, items.len()) {
            Ok(entries) => Ok(collected(entries, entries.len())),
            Err(e) => Err(e),
        },
        _ => Err("swallows is non-array"@),
    }
}

/// The swallow criteria of the container that `members` describe: none
/// where the member `swallows` is missing.
pub open spec fn swallows_of(members: Seq<MemberView>) -> Result<Seq<SwallowView>, Seq<char>> {
    match field(members, "swallows"@) {
        Some(value) => swallows_in(value),
        None => Ok(Seq::empty()),
    }
}

/// Whether every one of `items` is an object.
pub open spec fn all_objects(items: Seq<JsonView>) -> bool {
    forall|i: int| 0 <= i < items.len() ==> (#[trigger] items[i]) is Object
}

/// The tree that `value` describes, or the refusal that says why it
/// describes none.
///
/// `value` must be an object. Its members are read in this order: `border`,
/// `floating`, `marks`, `percent`, `type`, `layout`, `geometry`, `nodes`,
/// `swallows`, `current_border_width`; the first that is missing though it
/// must be there, or that holds what it must not, decides the refusal.
pub open spec fn decode(value: JsonView) -> Result<NodeView, Seq<char>>
    decreases value, 0nat,
{
    match value {
        JsonView::Object(members) => {
            let border = border_of(members);
            let floating = floating_of(members);
            let marks = marks_of(members);
            let percent = percent_of(members);
            let kind = kind_of(members);
            let layout = layout_of(members);
            let geometry = geometry_of(members);
            let nodes = children_of(members);
            let swallows = swallows_of(members);
            let width = width_of(members);
            if border is Err {
                Err(border->Err_0)
            } else if floating is Err {
                Err(floating->Err_0)
            } else if marks is Err {
                Err(marks->Err_0)
            } else if percent is Err {
                Err(percent->Err_0)
            } else if kind is Err {
                Err(kind->Err_0)
            } else if layout is Err {
                Err(layout->Err_0)
            } else if geometry is Err {
                Err(geometry->Err_0)
            } else if nodes is Err {
                Err(nodes->Err_0)
            } else if swallows is Err {
                Err(swallows->Err_0)
            } else if width is Err {
                Err(width->Err_0)
            } else {
                Ok(
                    NodeView {
                        border: border->Ok_0,
                        floating: floating->Ok_0,
                        layout: layout->Ok_0,
                        marks: marks->Ok_0,
                        percent: percent->Ok_0,
                        tree_type: kind->Ok_0,
                        current_border_width: width->Ok_0,
                        nodes: nodes->Ok_0,
                        geometry: geometry->Ok_0,
                        name: name_of(members),
                        swallows: swallows->Ok_0,
                        focused: focused_of(members),
                    },
                )
            }
        },
        _ => Err("Incompatible JSON value type"@),
    }
}

/// The children of the container that `members` describe: none where the
/// member `nodes` is missing. The member must be an array of objects; an
/// item that is no object is refused before any child is read.
pub open spec fn children_of(members: Seq<MemberView>) -> Result<Seq<NodeView>, Seq<char>>
    decreases members, 0nat,
{
    let at = position(members, "nodes"@);
    if 0 <= at < members.len() {
        match members[at].value {
            JsonView::Array(items) => if all_objects(items) {
                decode_all(items, items.len())
            } else {
                Err("Nodes contains non-objects"@)
            },
            _ => Err("Invalid JSON Value type (expected array)"@),
        }
    } else {
        Ok(Seq::empty())
    }
}

/// The trees that the first `n` of `items` describe, in their order, or the
/// refusal of the first item that describes none.
pub open spec fn decode_all(items: Seq<JsonView>, n: nat) -> Result<Seq<NodeView>, Seq<char>>
    decreases items, n,
{
    if n == 0 || n > items.len() {
        Ok(Seq::empty())
    } else {
        match decode_all(items, (n - 1) as nat) {
            Ok(before) => match decode(items[n - 1]) {
                Ok(node) => Ok(before.push(node)),
                Err(e) => Err(e),
            },
            Err(e) => Err(e),
        }
    }
}

/// Once an item among the first `k` is refused, reading more items ends in
/// the same refusal.
pub proof fn lemma_decode_all_refused(items: Seq<JsonView>, k: nat, n: nat)
    requires
        k <= n <= items.len(),
        decode_all(items, k) is Err,
    ensures
        decode_all(items, n) == decode_all(items, k),
    decreases n - k,
{
    if k < n {
        lemma_decode_all_refused(items, k, (n - 1) as nat);
    }
}

/// Once a member among the first `k` is refused, reading more members ends
/// in the same refusal.
pub proof fn lemma_criteria_of_refused(members: Seq<MemberView>, k: nat, n: nat)
    requires
        k <= n <= members.len(),
        criteria_of(members, k) is Err,
    ensures
        criteria_of(members, n) == criteria_of(members, k),
    decreases n - k,
{
    if k < n {
        lemma_criteria_of_refused(members, k, (n - 1) as nat);
    }
}

/// Once an item among the first `k` is refused, reading more items ends in
/// the same refusal.
pub proof fn lemma_criteria_in_refused(items: Seq<JsonView>, k: nat, n: nat)
    requires
        k <= n <= items.len(),
        criteria_in(items, k) is Err,
    ensures
        criteria_in(items, n) == criteria_in(items, k),
    decreases n - k,
{
    if k < n {
        lemma_criteria_in_refused(items, k, (n - 1) as nat);
    }
}

/// `slot` finds `at` where none of the criteria before `at` has the key and
/// the one at `at` has it, or where `at` is `n`.
pub proof fn lemma_slot(swallows: Seq<SwallowView>, key: Seq<char>, at: nat, n: nat)
    requires
        at <= n <= swallows.len(),
        forall|i: int| 0 <= i < at ==> swallows[i].key != key,
        at < n ==> swallows[at as int].key == key,
    ensures
        slot(swallows, key, n) == at,
    decreases n,
{
    if n > 0 {
        if at < n {
            lemma_slot(swallows, key, at, (n - 1) as nat);
        } else {
            lemma_slot(swallows, key, (n - 1) as nat, (n - 1) as nat);
        }
    }
}

/// Writes the refusal of an object without the member `key`.
fn missing_text(key: &str) -> (r: String)
    ensures
        r@ == missing(key@),
{
    let mut r = String::from_str("Missing \"");
    r.append(key);
    r.append("\" field");
    r
}

/// Looks up the member `key` of the object `val`, which must be there.
fn require<'a>(val: &'a Json, key: &str) -> (r: Result<&'a Json, String>)
    requires
        val@ is Object,
    ensures
        match r {
            Ok(value) => required(val@->Object_0, key@) == Ok::<JsonView, Seq<char>>(value@),
            Err(e) => required(val@->Object_0, key@) == Err::<JsonView, Seq<char>>(e@),
        },
{
    match val.get(key) {
        Some(value) => Ok(value),
        None => Err(missing_text(key)),
    }
}

/// Reads the marks of a container from the array of texts `value`.
fn read_marks(value: &Json) -> (r: Result<Vec<String>, String>)
    ensures
        match r {
            Ok(marks) => marks_in(value@) == Ok::<Seq<Seq<char>>, Seq<char>>(texts_view(marks@)),
            Err(e) => marks_in(value@) == Err::<Seq<Seq<char>>, Seq<char>>(e@),
        },
{
    match value {
        Json::Array(items) => {
            proof {
                crate::json::lemma_array_view(*value);
            }
            let mut marks: Vec<String> = Vec::new();
            let mut i: usize = 0;
            while i < items.len()
                invariant
                    i <= items.len(),
                    marks.len() == i,
                    value@ == JsonView::Array(items_view(items@)),
                    forall|j: int| 0 <= j < i ==> (#[trigger] items_view(items@)[j]) is Text,
                    forall|j: int|
                        0 <= j < i ==> (#[trigger] marks[j])@ == items_view(items@)[j]->Text_0,
                decreases items.len() - i,
            {
                match &items[i] {
                    Json::Text(st) => {
                        marks.push(st.clone());
                    },
                    _ => {
                        assert(!(items_view(items@)[i as int] is Text));
                        return Err(String::from_str("Marks contain non-strings"));
                    },
                }
                i += 1;
            }
            assert(texts_view(marks@) =~= Seq::new(
                items_view(items@).len(),
                |i: int| items_view(items@)[i]->Text_0,
            ));
            Ok(marks)
        },
        _ => Err(String::from_str("Invalid JSON value type for marks")),
    }
}

/// Reads the share of space of a container: nothing for `null`.
fn read_percent(value: &Json) -> (r: Result<Fraction, String>)
    ensures
        match r {
            Ok(x) => percent_in(value@) == Ok::<FractionView, Seq<char>>(x@),
            Err(e) => percent_in(value@) == Err::<FractionView, Seq<char>>(e@),
        },
{
    match value {
        Json::Null => Ok(Fraction::Whole(0)),
        _ => try_f64(value),
    }
}

/// Reads the text of the swallow criterion `key` from its value.
pub fn read_criterion(key: &str, value: &Json) -> (r: Result<String, String>)
    ensures
        match r {
            Ok(text) => criterion_text(key@, value@) == Ok::<Seq<char>, Seq<char>>(text@),
            Err(e) => criterion_text(key@, value@) == Err::<Seq<char>, Seq<char>>(e@),
        },
{
    match value {
        Json::Text(text) => Ok(text.clone()),
        Json::Number(Number::PosInt(u)) => Ok(decimal_text(*u as u128)),
        Json::Number(Number::NegInt(i)) => Ok(signed_decimal_text(*i)),
        Json::Number(Number::Float(f)) => Ok(f.shown.clone()),
        _ => {
            let mut e = String::from_str("Key \"");
            e.append(key);
            e.append("\" has non-string or non-number value");
            Err(e)
        },
    }
}

/// Reads the criteria that the members of one object give, and adds them to
/// `entries`.
fn read_criteria(members: &Vec<Member>, entries: &mut Vec<Swallow>) -> (r: Result<(), String>)
    ensures
        match r {
            Ok(_) => {
                let more = criteria_of(members_view(members@), members@.len());
                more is Ok && swallows_view(final(entries)@) == swallows_view(old(entries)@)
                    + more->Ok_0
            },
            Err(e) => criteria_of(members_view(members@), members@.len()) == Err::<
                Seq<SwallowView>,
                Seq<char>,
            >(e@),
        },
{
    let ghost all = members_view(members@);
    let ghost before = swallows_view(entries@);
    let mut i: usize = 0;
    while i < members.len()
        invariant
            i <= members.len(),
            all == members_view(members@),
            criteria_of(all, i as nat) is Ok,
            swallows_view(entries@) == before + criteria_of(all, i as nat)->Ok_0,
        decreases members.len() - i,
    {
        match read_criterion(members[i].key.as_str(), &members[i].value) {
            Ok(text) => {
                let ghost earlier = swallows_view(entries@);
                entries.push(Swallow { key: members[i].key.clone(), value: text });
                assert(swallows_view(entries@) =~= earlier.push(
                    SwallowView { key: all[i as int].key, value: text@ },
                ));
                assert(swallows_view(entries@) =~= before + criteria_of(all, (i + 1) as nat)->Ok_0);
            },
            Err(e) => {
                proof {
                    lemma_criteria_of_refused(all, (i + 1) as nat, members@.len());
                }
                return Err(e);
            },
        }
        i += 1;
    }
    Ok(())
}

/// Puts `entry` into `swallows`: in the place of the criterion with its key,
/// or last where there is none.
fn put_into(swallows: &mut Vec<Swallow>, entry: Swallow)
    ensures
        swallows_view(final(swallows)@) == put(swallows_view(old(swallows)@), entry@),
{
    let ghost before = swallows_view(swallows@);
    let mut i: usize = 0;
    while i < swallows.len()
        invariant
            i <= swallows.len(),
            before == swallows_view(swallows@),
            before == swallows_view(old(swallows)@),
            forall|j: int| 0 <= j < i ==> before[j].key != entry.key@,
        decreases swallows.len() - i,
    {
        if swallows[i].key == entry.key {
            proof {
                lemma_slot(before, entry.key@, i as nat, before.len());
            }
            swallows.set(i, entry);
            assert(swallows_view(swallows@) =~= before.update(i as int, entry@));
            return ;
        }
        i += 1;
    }
    proof {
        lemma_slot(before, entry.key@, before.len(), before.len());
    }
    swallows.push(entry);
    assert(swallows_view(swallows@) =~= before.push(entry@));
}

/// Reads the swallow criteria of a container from an array of objects.
fn read_swallows(value: &Json) -> (r: Result<Vec<Swallow>, String>)
    ensures
        match r {
            Ok(swallows) => swallows_in(value@) == Ok::<Seq<SwallowView>, Seq<char>>(
                swallows_view(swallows@),
            ),
            Err(e) => swallows_in(value@) == Err::<Seq<SwallowView>, Seq<char>>(e@),
        },
{
    match value {
        Json::Array(items) => {
            proof {
                crate::json::lemma_array_view(*value);
            }
            let ghost all = items_view(items@);
            let mut entries: Vec<Swallow> = Vec::new();
            let mut i: usize = 0;
            assert(swallows_view(entries@) =~= Seq::empty());
            while i < items.len()
                invariant
                    i <= items.len(),
                    all == items_view(items@),
                    value@ == JsonView::Array(all),
                    criteria_in(all, i as nat) == Ok::<Seq<SwallowView>, Seq<char>>(
                        swallows_view(entries@),
                    ),
                decreases items.len() - i,
            {
                assert(all[i as int] == items[i as int]@);
                match &items[i] {
                    Json::Object(members) => {
                        proof {
                            crate::json::lemma_object_view(items[i as int]);
                        }
                        match read_criteria(members, &mut entries) {
                            Ok(_) => {},
                            Err(e) => {
                                proof {
                                    lemma_criteria_in_refused(all, (i + 1) as nat, items@.len());
                                }
                                return Err(e);
                            },
                        }
                    },
                    _ => {
                        proof {
                            lemma_criteria_in_refused(all, (i + 1) as nat, items@.len());
                        }
                        return Err(String::from_str("non-object in swallows"));
                    },
                }
                i += 1;
            }
            let ghost pairs = swallows_view(entries@);
            let mut swallows: Vec<Swallow> = Vec::new();
            let mut k: usize = 0;
            assert(swallows_view(swallows@) =~= Seq::empty());
            while k < entries.len()
                invariant
                    k <= entries.len(),
                    pairs == swallows_view(entries@),
                    swallows_view(swallows@) == collected(pairs, k as nat),
                decreases entries.len() - k,
            {
                let entry = Swallow {
                    key: entries[k].key.clone(),
                    value: entries[k].value.clone(),
                };
                assert(entry@ == pairs[k as int]);
                put_into(&mut swallows, entry);
                k += 1;
            }
            Ok(swallows)
        },
        _ => Err(String::from_str("swallows is non-array")),
    }
}

/// Reads the children of a container from the items of the array `nodes`.
fn read_children(items: &Vec<Json>) -> (r: Result<Vec<Node>, String>)
    requires
        all_objects(items_view(items@)),
    ensures
        match r {
            Ok(nodes) => decode_all(items_view(items@), items@.len()) == Ok::<
                Seq<NodeView>,
                Seq<char>,
            >(nodes_view(nodes@)),
            Err(e) => decode_all(items_view(items@), items@.len()) == Err::<
                Seq<NodeView>,
                Seq<char>,
            >(e@),
        },
    decreases items_view(items@),
{
    let ghost all = items_view(items@);
    let mut nodes: Vec<Node> = Vec::new();
    let mut i: usize = 0;
    assert(nodes_view(nodes@) =~= Seq::empty());
    while i < items.len()
        invariant
            i <= items.len(),
            all == items_view(items@),
            decode_all(all, i as nat) == Ok::<Seq<NodeView>, Seq<char>>(nodes_view(nodes@)),
        decreases items.len() - i,
    {
        assert(all[i as int] == items[i as int]@);
        assert(decreases_to!(all => all[i as int]));
        match Node::try_from(&items[i]) {
            Ok(node) => {
                let ghost earlier = nodes_view(nodes@);
                nodes.push(node);
                assert(nodes_view(nodes@) =~= earlier.push(node@));
            },
            Err(e) => {
                proof {
                    lemma_decode_all_refused(all, (i + 1) as nat, items@.len());
                }
                return Err(e);
            },
        }
        i += 1;
    }
    Ok(nodes)
}

/// Whether every one of `items` is an object.
fn only_objects(items: &Vec<Json>) -> (r: bool)
    ensures
        r == all_objects(items_view(items@)),
{
    let mut i: usize = 0;
    while i < items.len()
        invariant
            i <= items.len(),
            forall|j: int| 0 <= j < i ==> (#[trigger] items_view(items@)[j]) is Object,
        decreases items.len() - i,
    {
        match &items[i] {
            Json::Object(_) => {},
            _ => {
                assert(!(items_view(items@)[i as int] is Object));
                return false;
            },
        }
        i += 1;
    }
    true
}

impl Node {
    /// Reads a tree from its JSON form. The result is the tree that
    /// [`decode`] gives for the value, or its refusal. No container of the
    /// tree holds a swallow criterion twice.
    pub fn try_from(val: &Json) -> (r: Result<Node, String>)
        ensures
            match r {
                Ok(node) => decode(val@) == Ok::<NodeView, Seq<char>>(node@) && node@.well_formed(),
                Err(e) => decode(val@) == Err::<NodeView, Seq<char>>(e@),
            },
        decreases val@,
    {
        match val {
            Json::Object(_) => {},
            _ => {
                return Err(String::from_str("Incompatible JSON value type"));
            },
        }
        let ghost members = val@->Object_0;
        let border = match require(val, "border") {
            Ok(value) => match BorderType::try_from(value) {
                Ok(border) => border,
                Err(e) => {
                    return Err(e);
                },
            },
            Err(e) => {
                return Err(e);
            },
        };
        let floating = match require(val, "floating") {
            Ok(value) => match FloatMode::try_from(value) {
                Ok(floating) => floating,
                Err(e) => {
                    return Err(e);
                },
            },
            Err(e) => {
                return Err(e);
            },
        };
        let marks = match require(val, "marks") {
            Ok(value) => match read_marks(value) {
                Ok(marks) => marks,
                Err(e) => {
                    return Err(e);
                },
            },
            Err(e) => {
                return Err(e);
            },
        };
        let percent = match require(val, "percent") {
            Ok(value) => match read_percent(value) {
                Ok(percent) => percent,
                Err(e) => {
                    return Err(e);
                },
            },
            Err(e) => {
                return Err(e);
            },
        };
        let tree_type = match require(val, "type") {
            Ok(value) => match TreeType::try_from(value) {
                Ok(tree_type) => tree_type,
                Err(e) => {
                    return Err(e);
                },
            },
            Err(e) => {
                return Err(e);
            },
        };
        let layout = match val.get("layout") {
            Some(value) => match Layout::try_from(value) {
                Ok(layout) => Some(layout),
                Err(e) => {
                    return Err(e);
                },
            },
            None => None,
        };
        let name = match val.get("name") {
            Some(value) => match try_string(value) {
                Ok(name) => Some(String::from_str(name)),
                Err(_) => Some(String::from_str("(null)")),
            },
            None => None,
        };
        let geometry = match val.get("geometry") {
            Some(value) => match TreeGeometry::try_from(value) {
                Ok(geometry) => Some(geometry),
                Err(e) => {
                    return Err(e);
                },
            },
            None => None,
        };
        let nodes = match val.get("nodes") {
            Some(value) => match try_vec(value) {
                Ok(items) => {
                    if !only_objects(items) {
                        return Err(String::from_str("Nodes contains non-objects"));
                    }
                    proof {
                        let at = position(members, "nodes"@);
                        assert(members[at].value == JsonView::Array(items_view(items@)));
                        assert(decreases_to!(val@ => members));
                        assert(decreases_to!(members => members[at]));
                        assert(decreases_to!(members[at] => members[at].value));
                        assert(decreases_to!(members[at].value => items_view(items@)));
                    }
                    match read_children(items) {
                        Ok(nodes) => nodes,
                        Err(e) => {
                            return Err(e);
                        },
                    }
                },
                Err(e) => {
                    return Err(e);
                },
            },
            None => Vec::new(),
        };
        let swallows = match val.get("swallows") {
            Some(value) => match read_swallows(value) {
                Ok(swallows) => swallows,
                Err(e) => {
                    return Err(e);
                },
            },
            None => Vec::new(),
        };
        let current_border_width = match val.get("current_border_width") {
            Some(value) => match try_i64(value) {
                Ok(width) => Some(width),
                Err(e) => {
                    return Err(e);
                },
            },
            None => None,
        };
        let focused = match val.get("focused") {
            Some(Json::Bool(focused)) => *focused,
            _ => false,
        };
        let node = Node {
            border,
            floating,
            layout,
            marks,
            percent,
            tree_type,
            current_border_width,
            nodes,
            geometry,
            name,
            swallows,
            focused,
        };
        proof {
            crate::node::lemma_children_view(node);
            assert(node@.swallows =~= swallows_view(node.swallows@));
            assert(decode(val@)->Ok_0.nodes =~= node@.nodes);
            assert(decode(val@)->Ok_0.swallows =~= node@.swallows);
            crate::decode_laws::lemma_decoded_is_well_formed(val@);
        }
        Ok(node)
    }
}

} // verus!
