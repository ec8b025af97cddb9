//! Laws of reading: what holds of every JSON value and every tree.

use vstd::prelude::*;
use crate::decode::{
    border_of, collected, criteria_in, criteria_of, criterion_text, decode, decode_all,
    floating_of, kind_of, marks_of, missing, percent_in, percent_of, put, slot, swallows_in,
    swallows_of, unfit,
};
use crate::fraction::{hundredfold, nearest_double, percent_text, spacing, FractionView};
use crate::json::{field, JsonView, MemberView, NumberView};
use crate::kinds::{unknown, BorderType, FloatMode, Layout, TreeType};
use crate::node::{distinct_keys, NodeView, SwallowView};
use crate::text::{decimal, signed_decimal};

verus! {

/// The members that the description of a container must have, in the order
/// in which they are read.
pub open spec fn required_keys() -> Seq<Seq<char>> {
    seq!["border"@, "floating"@, "marks"@, "percent"@, "type"@]
}

/// Whether the member of `members` that is read as number `k` of those that
/// must be there is there and holds what it must.
pub open spec fn reads(members: Seq<MemberView>, k: int) -> bool {
    if k == 0 {
        border_of(members) is Ok
    } else if k == 1 {
        floating_of(members) is Ok
    } else if k == 2 {
        marks_of(members) is Ok
    } else if k == 3 {
        percent_of(members) is Ok
    } else {
        kind_of(members) is Ok
    }
}

/// An object that lacks one of the members that must be there describes no
/// tree.
pub proof fn lemma_missing_member_is_refused(members: Seq<MemberView>, k: int)
    requires
        0 <= k < required_keys().len(),
        field(members, required_keys()[k]) is None,
    ensures
        decode(JsonView::Object(members)) is Err,
{
}

/// An object that lacks one of the members that must be there is refused
/// with the name of that member, where the members that are read before it
/// are there and hold what they must.
pub proof fn lemma_missing_member_is_named(members: Seq<MemberView>, k: int)
    requires
        0 <= k < required_keys().len(),
        field(members, required_keys()[k]) is None,
        forall|j: int| 0 <= j < k ==> reads(members, j),
    ensures
        decode(JsonView::Object(members)) == Err::<NodeView, Seq<char>>(
            missing(required_keys()[k]),
        ),
{
    assert(forall|j: int| 0 <= j < k ==> reads(members, j));
    if k > 0 {
        assert(reads(members, 0));
    }
    if k > 1 {
        assert(reads(members, 1));
    }
    if k > 2 {
        assert(reads(members, 2));
    }
    if k > 3 {
        assert(reads(members, 3));
    }
}

/// The refusal of a name holds the name as it was given, between quotes.
pub proof fn lemma_refusal_quotes_name(what: Seq<char>, given: Seq<char>)
    ensures
        ({
            let start = ("Unknown "@.len() + what.len() + " \""@.len()) as int;
            &&& unknown(what, given).len() == start + given.len() + "\""@.len()
            &&& unknown(what, given).subrange(start, start + given.len()) == given
        }),
{
    let start = ("Unknown "@.len() + what.len() + " \""@.len()) as int;
    assert(unknown(what, given).subrange(start, start + given.len()) =~= given);
}

/// A border that is a text but none of the three names is refused with
/// that text, and so is the object that holds it.
pub proof fn lemma_unknown_border_is_refused(members: Seq<MemberView>, name: Seq<char>)
    requires
        field(members, "border"@) == Some(JsonView::Text(name)),
        BorderType::named(name) is None,
    ensures
        BorderType::of(JsonView::Text(name)) == Err::<BorderType, Seq<char>>(
            unknown("border type"@, name),
        ),
        decode(JsonView::Object(members)) == Err::<NodeView, Seq<char>>(
            unknown("border type"@, name),
        ),
{
}

/// A floating mode that is a text but none of the four names is refused
/// with that text, and so is the object that holds it, where its border is
/// in order.
pub proof fn lemma_unknown_floating_is_refused(members: Seq<MemberView>, name: Seq<char>)
    requires
        field(members, "floating"@) == Some(JsonView::Text(name)),
        FloatMode::named(name) is None,
        border_of(members) is Ok,
    ensures
        FloatMode::of(JsonView::Text(name)) == Err::<FloatMode, Seq<char>>(
            unknown("floating type"@, name),
        ),
        decode(JsonView::Object(members)) == Err::<NodeView, Seq<char>>(
            unknown("floating type"@, name),
        ),
{
}

/// A kind that is a text but none of the six names is refused with that
/// text, and so is the object that holds it, where the members that are read
/// before it are in order.
pub proof fn lemma_unknown_kind_is_refused(members: Seq<MemberView>, name: Seq<char>)
    requires
        field(members, "type"@) == Some(JsonView::Text(name)),
        TreeType::named(name) is Err,
        border_of(members) is Ok,
        floating_of(members) is Ok,
        marks_of(members) is Ok,
        percent_of(members) is Ok,
    ensures
        TreeType::of(JsonView::Text(name)) == Err::<TreeType, Seq<char>>(
            unknown("tree type"@, name),
        ),
        decode(JsonView::Object(members)) == Err::<NodeView, Seq<char>>(
            unknown("tree type"@, name),
        ),
{
}

/// A layout that is a text but none of the six names is refused with that
/// text, and so is the object that holds it, where the members that are read
/// before it are in order.
pub proof fn lemma_unknown_layout_is_refused(members: Seq<MemberView>, name: Seq<char>)
    requires
        field(members, "layout"@) == Some(JsonView::Text(name)),
        Layout::named(name) is None,
        border_of(members) is Ok,
        floating_of(members) is Ok,
        marks_of(members) is Ok,
        percent_of(members) is Ok,
        kind_of(members) is Ok,
    ensures
        Layout::of(JsonView::Text(name)) == Err::<Layout, Seq<char>>(unknown("layout"@, name)),
        decode(JsonView::Object(members)) == Err::<NodeView, Seq<char>>(unknown("layout"@, name)),
{
}

/// Where `slot` gives an index below `n`, the criterion there has the key
/// and none before it has; where it gives `n`, none of the first `n` has the
/// key.
pub proof fn lemma_slot_found(swallows: Seq<SwallowView>, key: Seq<char>, n: nat)
    requires
        n <= swallows.len(),
    ensures
        slot(swallows, key, n) <= n,
        slot(swallows, key, n) < n ==> swallows[slot(swallows, key, n) as int].key == key,
        forall|i: int| 0 <= i < slot(swallows, key, n) ==> swallows[i].key != key,
    decreases n,
{
    if n > 0 {
        lemma_slot_found(swallows, key, (n - 1) as nat);
    }
}

/// Putting a criterion into a collection without double keys leaves it
/// without double keys.
pub proof fn lemma_put_keeps_keys_distinct(swallows: Seq<SwallowView>, entry: SwallowView)
    requires
        distinct_keys(swallows),
    ensures
        distinct_keys(put(swallows, entry)),
{
    lemma_slot_found(swallows, entry.key, swallows.len());
    let at = slot(swallows, entry.key, swallows.len());
    let after = put(swallows, entry);
    assert forall|i: int, j: int| 0 <= i < j < after.len() implies (#[trigger] after[i]).key != (
    #[trigger] after[j]).key by {
        if at < swallows.len() {
            assert(after[i].key == swallows[i].key);
            assert(after[j].key == swallows[j].key);
        } else {
            if j < swallows.len() {
                assert(after[i].key == swallows[i].key);
                assert(after[j].key == swallows[j].key);
            } else {
                assert(after[i].key == swallows[i].key);
            }
        }
    }
}

/// Criteria that are put one after the other into an empty collection make
/// a collection without double keys.
pub proof fn lemma_collected_keys_distinct(entries: Seq<SwallowView>, n: nat)
    requires
        n <= entries.len(),
    ensures
        distinct_keys(collected(entries, n)),
    decreases n,
{
    if n > 0 {
        lemma_collected_keys_distinct(entries, (n - 1) as nat);
        lemma_put_keeps_keys_distinct(collected(entries, (n - 1) as nat), entries[n - 1]);
    }
}

/// A tree that was read from a JSON value holds no swallow criterion twice.
pub proof fn lemma_decoded_is_well_formed(value: JsonView)
    ensures
        decode(value) is Ok ==> decode(value)->Ok_0.well_formed(),
    decreases value, 0nat,
{
    if decode(value) is Ok {
        let members = value->Object_0;
        let node = decode(value)->Ok_0;
        match swallows_of(members) {
            Ok(swallows) => {
                match field(members, "swallows"@) {
                    Some(JsonView::Array(items)) => {
                        let entries = criteria_in(items, items.len())->Ok_0;
                        lemma_collected_keys_distinct(entries, entries.len());
                    },
                    _ => {},
                }
            },
            Err(_) => {},
        }
        assert(distinct_keys(node.swallows));
        let at = crate::json::position(members, "nodes"@);
        if 0 <= at < members.len() {
            let items = members[at].value->Array_0;
            lemma_all_decoded_are_well_formed(items, items.len());
        }
        assert(node.well_formed());
    }
}

/// The trees that were read from the items of an array hold no swallow
/// criterion twice.
pub proof fn lemma_all_decoded_are_well_formed(items: Seq<JsonView>, n: nat)
    requires
        n <= items.len(),
    ensures
        decode_all(items, n) is Ok ==> {
            &&& decode_all(items, n)->Ok_0.len() == n
            &&& forall|i: int|
                0 <= i < n ==> (#[trigger] decode_all(items, n)->Ok_0[i]).well_formed()
        },
    decreases items, n,
{
    if n > 0 && decode_all(items, n) is Ok {
        lemma_all_decoded_are_well_formed(items, (n - 1) as nat);
        lemma_decoded_is_well_formed(items[n - 1]);
    }
}

/// A share of space that is `null` is read as nothing, and shows as
/// `0.000`.
pub proof fn lemma_null_percent_is_zero()
    ensures
        percent_in(JsonView::Null) == Ok::<FractionView, Seq<char>>(FractionView::Whole(0)),
        percent_text(FractionView::Whole(0)) == "0.000"@,
{
    reveal_strlit("0.000");
    reveal_strlit(".000");
    assert(spacing(0) == 1);
    assert(nearest_double(0) == 0);
    assert(hundredfold(0) == 0);
    assert(decimal(0) =~= seq!['0']);
    assert(decimal(0) + ".000"@ =~= "0.000"@);
}

/// A share of space that is an integer, of either sign, is kept as that
/// integer: nothing of it is lost, and nothing refused.
pub proof fn lemma_integer_percent_is_kept(u: u64, i: i64)
    ensures
        percent_in(JsonView::Number(NumberView::PosInt(u))) == Ok::<FractionView, Seq<char>>(
            FractionView::Whole(u),
        ),
        percent_in(JsonView::Number(NumberView::NegInt(i))) == Ok::<FractionView, Seq<char>>(
            FractionView::Signed(i),
        ),
{
}

/// A hundred times an integer is exact as long as it fits the significand
/// of a double.
pub proof fn lemma_small_hundredfold_is_exact(n: nat)
    requires
        n * 100 < 0x20_0000_0000_0000,
    ensures
        hundredfold(n) == n * 100,
{
    assert(spacing(n) == 1);
    assert(nearest_double(n) == n);
    assert(spacing(n * 100) == 1);
    assert(nearest_double(n * 100) == n * 100);
}

/// The percentage of an integer share is exact as long as a hundred times
/// the integer fits the significand of a double: the digits of the hundredfold
/// and three zeros, after a minus sign where the integer is below zero.
pub proof fn lemma_small_percent_is_exact(u: u64, i: i64)
    requires
        u * 100 < 0x20_0000_0000_0000,
        -0x20_0000_0000_0000 < i * 100 < 0x20_0000_0000_0000,
    ensures
        percent_text(FractionView::Whole(u)) == decimal((u * 100) as nat) + ".000"@,
        i >= 0 ==> percent_text(FractionView::Signed(i)) == decimal((i * 100) as nat) + ".000"@,
        i < 0 ==> percent_text(FractionView::Signed(i)) == "-"@ + (decimal((-i * 100) as nat)
            + ".000"@),
{
    lemma_small_hundredfold_is_exact(u as nat);
    if i >= 0 {
        lemma_small_hundredfold_is_exact(i as nat);
    } else {
        lemma_small_hundredfold_is_exact((-i) as nat);
    }
}

/// A swallow criterion whose value is neither a text nor a number is
/// refused with its key.
pub proof fn lemma_criterion_of_other_kind_is_refused(key: Seq<char>, value: JsonView)
    requires
        !(value is Text),
        !(value is Number),
    ensures
        criterion_text(key, value) == Err::<Seq<char>, Seq<char>>(unfit(key)),
{
}

/// A swallow criterion whose value is a text or a number is taken with
/// the text of its value.
pub proof fn lemma_criterion_text(key: Seq<char>, value: JsonView)
    requires
        value is Text || value is Number,
    ensures
        criterion_text(key, value) is Ok,
        value matches JsonView::Text(text) ==> criterion_text(key, value)->Ok_0 == text,
        value matches JsonView::Number(NumberView::PosInt(u)) ==> criterion_text(key, value)->Ok_0
            == decimal(u as nat),
        value matches JsonView::Number(NumberView::NegInt(i)) ==> criterion_text(key, value)->Ok_0
            == signed_decimal(i as int),
        value matches JsonView::Number(NumberView::Float(f)) ==> criterion_text(key, value)->Ok_0
            == f.shown,
{
}

/// An array of swallow criteria that holds a value that cannot be one
/// describes no criteria: the first `n` items are refused as soon as one of
/// their members is.
pub proof fn lemma_unfit_criterion_refuses_all(
    items: Seq<JsonView>,
    at: int,
    members: Seq<MemberView>,
    which: int,
)
    requires
        0 <= at < items.len(),
        items[at] == JsonView::Object(members),
        0 <= which < members.len(),
        criterion_text(members[which].key, members[which].value) is Err,
    ensures
        swallows_in(JsonView::Array(items)) is Err,
{
    lemma_criteria_of_fail(members, which, members.len());
    lemma_criteria_in_fail(items, at, items.len());
}

/// The members up to `n` give no criteria once the member `which` among
/// them gives none.
pub proof fn lemma_criteria_of_fail(members: Seq<MemberView>, which: int, n: nat)
    requires
        0 <= which < n <= members.len(),
        criterion_text(members[which].key, members[which].value) is Err,
    ensures
        criteria_of(members, n) is Err,
    decreases n,
{
    if which < n - 1 {
        lemma_criteria_of_fail(members, which, (n - 1) as nat);
    }
}

/// The items up to `n` give no criteria once the item `at` among them gives
/// none.
pub proof fn lemma_criteria_in_fail(items: Seq<JsonView>, at: int, n: nat)
    requires
        0 <= at < n <= items.len(),
        items[at] matches JsonView::Object(members) ==> criteria_of(members, members.len()) is Err,
    ensures
        criteria_in(items, n) is Err,
    decreases n,
{
    if at < n - 1 {
        lemma_criteria_in_fail(items, at, (n - 1) as nat);
    }
}

} // verus!
