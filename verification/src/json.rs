//! The JSON values that a tree is read from.
//!
//! A [`Json`] holds what a parser has made of a document. Numbers that are
//! no integers come with the texts that show them, see [`Float`].

use vstd::prelude::*;

verus! {

/// A JSON number that is no integer. Verified code cannot compute with such a
/// number, so it is held by the two texts under which a diagram shows it.
/// Whoever builds the value writes both texts; nothing here looks into them.
#[derive(Debug, PartialEq, Eq)]
pub struct Float {
    /// The double in the shortest decimal notation that reads back as the
    /// same double, without exponent.
    pub shown: String,
    /// A hundred times the double, with three decimals.
    pub percent: String,
}

/// A JSON number.
#[derive(Debug, PartialEq, Eq)]
pub enum Number {
    /// An integer from 0 up.
    PosInt(u64),
    /// An integer below 0. (One from 0 up in this place is read as a signed
    /// integer all the same.)
    NegInt(i64),
    /// Any other number.
    Float(Float),
}

/// A JSON value.
#[derive(Debug, PartialEq, Eq)]
pub enum Json {
    Null,
    Bool(bool),
    Number(Number),
    Text(String),
    Array(Vec<Json>),
    /// The members of an object, in the order in which its keys are gone
    /// through. Where a key occurs twice, its first member counts.
    Object(Vec<Member>),
}

/// One member of a JSON object.
#[derive(Debug, PartialEq, Eq)]
pub struct Member {
    pub key: String,
    pub value: Json,
}

/// What a [`Float`] stands for in contracts.
pub struct FloatView {
    pub shown: Seq<char>,
    pub percent: Seq<char>,
}

/// What a [`Number`] stands for in contracts.
pub enum NumberView {
    PosInt(u64),
    NegInt(i64),
    Float(FloatView),
}

/// What a [`Json`] stands for in contracts.
pub enum JsonView {
    Null,
    Bool(bool),
    Number(NumberView),
    Text(Seq<char>),
    Array(Seq<JsonView>),
    Object(Seq<MemberView>),
}

/// What a [`Member`] stands for in contracts.
pub struct MemberView {
    pub key: Seq<char>,
    pub value: JsonView,
}

impl View for Float {
    type V = FloatView;

    open spec fn view(&self) -> FloatView {
        FloatView { shown: self.shown@, percent: self.percent@ }
    }
}

impl View for Number {
    type V = NumberView;

    open spec fn view(&self) -> NumberView {
        match self {
            Number::PosInt(u) => NumberView::PosInt(*u),
            Number::NegInt(i) => NumberView::NegInt(*i),
            Number::Float(f) => NumberView::Float(f@),
        }
    }
}

/// The view of `value`.
pub open spec fn model(value: Json) -> JsonView
    decreases value,
{
    match value {
        Json::Null => JsonView::Null,
        Json::Bool(b) => JsonView::Bool(b),
        Json::Number(n) => JsonView::Number(n@),
        Json::Text(s) => JsonView::Text(s@),
        Json::Array(items) => JsonView::Array(
            Seq::new(
                items.len() as nat,
                |i: int|
                    if 0 <= i < items.len() {
                        model(items[i])
                    } else {
                        JsonView::Null
                    },
            ),
        ),
        Json::Object(members) => JsonView::Object(
            Seq::new(
                members.len() as nat,
                |i: int|
                    if 0 <= i < members.len() {
                        MemberView { key: members[i].key@, value: model(members[i].value) }
                    } else {
                        MemberView { key: Seq::empty(), value: JsonView::Null }
                    },
            ),
        ),
    }
}

impl View for Json {
    type V = JsonView;

    open spec fn view(&self) -> JsonView {
        model(*self)
    }
}

impl View for Member {
    type V = MemberView;

    open spec fn view(&self) -> MemberView {
        MemberView { key: self.key@, value: self.value@ }
    }
}

/// The views of the values in `items`, in their order.
pub open spec fn items_view(items: Seq<Json>) -> Seq<JsonView> {
    Seq::new(items.len(), |i: int| items[i]@)
}

/// The views of `members`, in their order.
pub open spec fn members_view(members: Seq<Member>) -> Seq<MemberView> {
    Seq::new(members.len(), |i: int| members[i]@)
}

/// The least index from `from` on at which `members` holds the key `key`, or
/// the length of `members` where there is none.
pub open spec fn position_from(members: Seq<MemberView>, key: Seq<char>, from: int) -> int
    decreases members.len() - from,
{
    if from < 0 || from >= members.len() {
        members.len() as int
    } else if members[from].key == key {
        from
    } else {
        position_from(members, key, from + 1)
    }
}

/// The index of the first member of `members` with the key `key`, or the
/// length of `members` where no member has it.
pub open spec fn position(members: Seq<MemberView>, key: Seq<char>) -> int {
    position_from(members, key, 0)
}

/// The value of the first member of `members` with the key `key`.
pub open spec fn field(members: Seq<MemberView>, key: Seq<char>) -> Option<JsonView> {
    let at = position(members, key);
    if 0 <= at < members.len() {
        Some(members[at].value)
    } else {
        None
    }
}

/// The value under `key` where `value` is an object that has such a member.
pub open spec fn member(value: JsonView, key: Seq<char>) -> Option<JsonView> {
    match value {
        JsonView::Object(members) => field(members, key),
        _ => None,
    }
}

/// An array shows as the views of its items.
pub proof fn lemma_array_view(value: Json)
    requires
        value is Array,
    ensures
        value@ == JsonView::Array(items_view(value->Array_0@)),
{
    assert(value@->Array_0 =~= items_view(value->Array_0@));
}

/// An object shows as the views of its members.
pub proof fn lemma_object_view(value: Json)
    requires
        value is Object,
    ensures
        value@ == JsonView::Object(members_view(value->Object_0@)),
{
    assert(value@->Object_0 =~= members_view(value->Object_0@));
}

/// `position_from` finds `at` where no member from `from` up to `at` has the
/// key and the member at `at` has it, or where `at` is the length.
pub proof fn lemma_position_from(members: Seq<MemberView>, key: Seq<char>, from: int, at: int)
    requires
        0 <= from <= at <= members.len(),
        forall|i: int| from <= i < at ==> members[i].key != key,
        at < members.len() ==> members[at].key == key,
    ensures
        position_from(members, key, from) == at,
    decreases at - from,
{
    if from < at {
        lemma_position_from(members, key, from + 1, at);
    }
}

impl Json {
    /// Looks up the member `key` of an object. Gives `None` for a value that
    /// is no object and for an object without that member.
    pub fn get(&self, key: &str) -> (r: Option<&Json>)
        ensures
            match r {
                Some(value) => member(self@, key@) == Some(value@),
                None => member(self@, key@) is None,
            },
    {
        match self {
            Json::Object(members) => {
                proof {
                    lemma_object_view(*self);
                }
                let wanted = String::from_str(key);
                let mut i: usize = 0;
                while i < members.len()
                    invariant
                        i <= members.len(),
                        wanted@ == key@,
                        self@ == JsonView::Object(members_view(members@)),
                        forall|j: int| 0 <= j < i ==> members[j].key@ != key@,
                    decreases members.len() - i,
                {
                    if members[i].key == wanted {
                        proof {
                            lemma_position_from(members_view(members@), key@, 0, i as int);
                        }
                        return Some(&members[i].value);
                    }
                    i += 1;
                }
                proof {
                    lemma_position_from(members_view(members@), key@, 0, members.len() as int);
                }
                None
            },
            _ => None,
        }
    }
}

} // verus!
