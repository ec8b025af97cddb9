//! Reading one JSON value as a number, a text or an array.

use vstd::prelude::*;
use crate::fraction::{Fraction, FractionView};
use crate::json::{items_view, Json, JsonView, Number, NumberView};

verus! {

/// The number that `value` is, or the refusal of a value that is none.
pub open spec fn number_of(value: JsonView) -> Result<NumberView, Seq<char>> {
    match value {
        JsonView::Number(n) => Ok(n),
        _ => Err("Invalid JSON Value type (expected number)"@),
    }
}

/// `value` read as a double: a number that is no integer as it is, an
/// integer of either sign as the double nearest to it. Only a value that is
/// no number is refused.
pub open spec fn fraction_of(value: JsonView) -> Result<FractionView, Seq<char>> {
    match number_of(value) {
        Ok(NumberView::Float(f)) => Ok(FractionView::Float(f)),
        Ok(NumberView::PosInt(u)) => Ok(FractionView::Whole(u)),
        Ok(NumberView::NegInt(i)) => Ok(FractionView::Signed(i)),
        Err(e) => Err(e),
    }
}

/// `value` read as a signed 64-bit integer.
pub open spec fn i64_of(value: JsonView) -> Result<i64, Seq<char>> {
    match number_of(value) {
        Ok(NumberView::PosInt(u)) => if u <= i64::MAX {
            Ok(u as i64)
        } else {
            Err("Invalid JSON number: Expected a i64"@)
        },
        Ok(NumberView::NegInt(i)) => Ok(i),
        Ok(NumberView::Float(_)) => Err("Invalid JSON number: Expected a i64"@),
        Err(e) => Err(e),
    }
}

/// `value` read as an unsigned 64-bit integer.
pub open spec fn u64_of(value: JsonView) -> Result<u64, Seq<char>> {
    match number_of(value) {
        Ok(NumberView::PosInt(u)) => Ok(u),
        Ok(_) => Err("Invalid JSON number: Expected a u64"@),
        Err(e) => Err(e),
    }
}

/// The text that `value` is, or the refusal of a value that is none.
pub open spec fn text_of(value: JsonView) -> Result<Seq<char>, Seq<char>> {
    match value {
        JsonView::Text(s) => Ok(s),
        _ => Err("Invalid JSON Value type (expected string)"@),
    }
}

/// The items of the array that `value` is, or the refusal of a value that is
/// none.
pub open spec fn items_of(value: JsonView) -> Result<Seq<JsonView>, Seq<char>> {
    match value {
        JsonView::Array(items) => Ok(items),
        _ => Err("Invalid JSON Value type (expected array)"@),
    }
}

/// Reads `val` as a number.
pub fn try_number(val: &Json) -> (r: Result<&Number, String>)
    ensures
        match r {
            Ok(n) => number_of(val@) == Ok::<NumberView, Seq<char>>(n@),
            Err(e) => number_of(val@) == Err::<NumberView, Seq<char>>(e@),
        },
{
    match val {
        Json::Number(n) => Ok(n),
        _ => Err(String::from_str("Invalid JSON Value type (expected number)")),
    }
}

/// Reads `val` as a double. An integer, of either sign, stands for the
/// double nearest to it.
pub fn try_f64(val: &Json) -> (r: Result<Fraction, String>)
    ensures
        match r {
            Ok(x) => fraction_of(val@) == Ok::<FractionView, Seq<char>>(x@),
            Err(e) => fraction_of(val@) == Err::<FractionView, Seq<char>>(e@),
        },
{
    match try_number(val) {
        Ok(Number::Float(f)) => Ok(Fraction::Float(f.copy())),
        Ok(Number::PosInt(u)) => Ok(Fraction::Whole(*u)),
        Ok(Number::NegInt(i)) => Ok(Fraction::Signed(*i)),
        Err(e) => Err(e),
    }
}

/// Reads `val` as a signed 64-bit integer.
pub fn try_i64(val: &Json) -> (r: Result<i64, String>)
    ensures
        match r {
            Ok(i) => i64_of(val@) == Ok::<i64, Seq<char>>(i),
            Err(e) => i64_of(val@) == Err::<i64, Seq<char>>(e@),
        },
{
    match try_number(val) {
        Ok(Number::PosInt(u)) => {
            if *u <= i64::MAX as u64 {
                Ok(*u as i64)
            } else {
                Err(String::from_str("Invalid JSON number: Expected a i64"))
            }
        },
        Ok(Number::NegInt(i)) => Ok(*i),
        Ok(Number::Float(_)) => Err(String::from_str("Invalid JSON number: Expected a i64")),
        Err(e) => Err(e),
    }
}

/// Reads `val` as an unsigned 64-bit integer.
pub fn try_u64(val: &Json) -> (r: Result<u64, String>)
    ensures
        match r {
            Ok(u) => u64_of(val@) == Ok::<u64, Seq<char>>(u),
            Err(e) => u64_of(val@) == Err::<u64, Seq<char>>(e@),
        },
{
    match try_number(val) {
        Ok(Number::PosInt(u)) => Ok(*u),
        Ok(_) => Err(String::from_str("Invalid JSON number: Expected a u64")),
        Err(e) => Err(e),
    }
}

/// Reads `val` as a text.
pub fn try_string(val: &Json) -> (r: Result<&str, String>)
    ensures
        match r {
            Ok(s) => text_of(val@) == Ok::<Seq<char>, Seq<char>>(s@),
            Err(e) => text_of(val@) == Err::<Seq<char>, Seq<char>>(e@),
        },
{
    match val {
        Json::Text(s) => Ok(s.as_str()),
        _ => Err(String::from_str("Invalid JSON Value type (expected string)")),
    }
}

/// Reads `val` as an array.
pub fn try_vec(val: &Json) -> (r: Result<&Vec<Json>, String>)
    ensures
        match r {
            Ok(items) => items_of(val@) == Ok::<Seq<JsonView>, Seq<char>>(items_view(items@)),
            Err(e) => items_of(val@) == Err::<Seq<JsonView>, Seq<char>>(e@),
        },
{
    match val {
        Json::Array(items) => {
            proof {
                crate::json::lemma_array_view(*val);
            }
            Ok(items)
        },
        _ => Err(String::from_str("Invalid JSON Value type (expected array)")),
    }
}

} // verus!
