//! The place and size of a container on the screen.

use vstd::prelude::*;
use crate::json::{member, Json, JsonView};
use crate::text::{decimal, decimal_text};
use crate::utils::{try_u64, u64_of};

verus! {

/// The rectangle that a container takes on the screen, in pixels.
#[derive(Clone, Copy, Debug, PartialEq, Eq, Structural)]
pub struct TreeGeometry {
    pub height: u64,
    pub width: u64,
    pub x: u64,
    pub y: u64,
}

/// The member `key` of `value` read as an unsigned integer, or the refusal
/// of a value without that member or with another kind of value in it.
pub open spec fn coordinate(value: JsonView, key: Seq<char>) -> Result<u64, Seq<char>> {
    match member(value, key) {
        Some(found) => u64_of(found),
        None => Err("Missing field \""@ + key + "\""@),
    }
}

/// Reads the member `key` of `value` as an unsigned integer.
fn try_coordinate(value: &Json, key: &str) -> (r: Result<u64, String>)
    ensures
        match r {
            Ok(u) => coordinate(value@, key@) == Ok::<u64, Seq<char>>(u),
            Err(e) => coordinate(value@, key@) == Err::<u64, Seq<char>>(e@),
        },
{
    match value.get(key) {
        Some(found) => try_u64(found),
        None => {
            let mut e = String::from_str("Missing field \"");
            e.append(key);
            e.append("\"");
            Err(e)
        },
    }
}

impl TreeGeometry {
    /// The rectangle that `value` describes: an object whose members
    /// `height`, `width`, `x` and `y` are unsigned integers. The first of
    /// the four, in this order, that is missing or no such integer decides
    /// the refusal.
    pub open spec fn of(value: JsonView) -> Result<TreeGeometry, Seq<char>> {
        let height = coordinate(value, "height"@);
        let width = coordinate(value, "width"@);
        let x = coordinate(value, "x"@);
        let y = coordinate(value, "y"@);
        if height is Err {
            Err(height->Err_0)
        } else if width is Err {
            Err(width->Err_0)
        } else if x is Err {
            Err(x->Err_0)
        } else if y is Err {
            Err(y->Err_0)
        } else {
            Ok(TreeGeometry { height: height->Ok_0, width: width->Ok_0, x: x->Ok_0, y: y->Ok_0 })
        }
    }

    /// The diagram field that shows this rectangle.
    pub open spec fn shown(self) -> Seq<char> {
        "Geometry | { { Width: "@ + decimal(self.width as nat) + " | Height: "@ + decimal(
            self.height as nat,
        ) + " } | { X: "@ + decimal(self.x as nat) + " | Y: "@ + decimal(self.y as nat)
            + " } }"@
    }

    /// Reads a rectangle from a JSON object.
    pub fn try_from(val: &Json) -> (r: Result<TreeGeometry, String>)
        ensures
            match r {
                Ok(g) => TreeGeometry::of(val@) == Ok::<TreeGeometry, Seq<char>>(g),
                Err(e) => TreeGeometry::of(val@) == Err::<TreeGeometry, Seq<char>>(e@),
            },
    {
        let height = match try_coordinate(val, "height") {
            Ok(u) => u,
            Err(e) => {
                return Err(e);
            },
        };
        let width = match try_coordinate(val, "width") {
            Ok(u) => u,
            Err(e) => {
                return Err(e);
            },
        };
        let x = match try_coordinate(val, "x") {
            Ok(u) => u,
            Err(e) => {
                return Err(e);
            },
        };
        let y = match try_coordinate(val, "y") {
            Ok(u) => u,
            Err(e) => {
                return Err(e);
            },
        };
        Ok(TreeGeometry { height, width, x, y })
    }

    /// Writes the diagram field that shows this rectangle.
    pub fn pretty_print(&self) -> (r: String)
        ensures
            r@ == self.shown(),
    {
        let mut r = String::from_str("Geometry | { { Width: ");
        r.append(decimal_text(self.width as u128).as_str());
        r.append(" | Height: ");
        r.append(decimal_text(self.height as u128).as_str());
        r.append(" } | { X: ");
        r.append(decimal_text(self.x as u128).as_str());
        r.append(" | Y: ");
        r.append(decimal_text(self.y as u128).as_str());
        r.append(" } }");
        r
    }
}

} // verus!
