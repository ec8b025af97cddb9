//! The enumerated properties of a container: border, floating mode, layout
//! and the kind of the container.

use vstd::prelude::*;
use crate::json::{Json, JsonView};
use crate::text::same_text;
use crate::utils::{text_of, try_string};

verus! {

/// How a container's border is drawn.
#[derive(Clone, Copy, Debug, PartialEq, Eq, Structural)]
pub enum BorderType {
    Normal,
    Pixel,
    NoBorder,
}

/// Whether a container floats, and who decided so.
#[derive(Clone, Copy, Debug, PartialEq, Eq, Structural)]
pub enum FloatMode {
    AutoOn,
    UserOn,
    AutoOff,
    UserOff,
}

/// How a container arranges its children.
#[derive(Clone, Copy, Debug, PartialEq, Eq, Structural)]
pub enum Layout {
    Tabbed,
    SplitV,
    SplitH,
    Stacked,
    Output,
    DockArea,
}

/// The role of a container in the tree.
#[derive(Clone, Copy, Debug, PartialEq, Eq, Structural)]
pub enum TreeType {
    Root,
    Output,
    Workspace,
    DockArea,
    Con,
    FloatingCon,
}

/// The refusal of `given` as a name of a `what`.
pub open spec fn unknown(what: Seq<char>, given: Seq<char>) -> Seq<char> {
    "Unknown "@ + what + " \""@ + given + "\""@
}

/// Writes the refusal of `given` as a name of a `what`.
fn unknown_text(what: &str, given: &str) -> (r: String)
    ensures
        r@ == unknown(what@, given@),
{
    let mut r = String::from_str("Unknown ");
    r.append(what);
    r.append(" \"");
    r.append(given);
    r.append("\"");
    r
}

impl BorderType {
    /// The name of this border in a tree's JSON form.
    pub open spec fn code(self) -> Seq<char> {
        match self {
            BorderType::Pixel => "pixel"@,
            BorderType::NoBorder => "none"@,
            BorderType::Normal => "normal"@,
        }
    }

    /// The border that `name` names.
    pub open spec fn named(name: Seq<char>) -> Option<BorderType> {
        if name == "pixel"@ {
            Some(BorderType::Pixel)
        } else if name == "none"@ {
            Some(BorderType::NoBorder)
        } else if name == "normal"@ {
            Some(BorderType::Normal)
        } else {
            None
        }
    }

    /// The border that `value` names: `value` must be a text, and one of the
    /// three names.
    pub open spec fn of(value: JsonView) -> Result<BorderType, Seq<char>> {
        match value {
            JsonView::Text(name) => match BorderType::named(name) {
                Some(border) => Ok(border),
                None => Err(unknown("border type"@, name)),
            },
            _ => Err("Incompatible JSON value type"@),
        }
    }

    /// The unit in which the width of this border is given.
    pub open spec fn unit_text(self) -> Seq<char> {
        match self {
            BorderType::NoBorder => ""@,
            _ => "px"@,
        }
    }

    /// Reads a border from the JSON text that names it.
    pub fn try_from(val: &Json) -> (r: Result<BorderType, String>)
        ensures
            match r {
                Ok(border) => BorderType::of(val@) == Ok::<BorderType, Seq<char>>(border),
                Err(e) => BorderType::of(val@) == Err::<BorderType, Seq<char>>(e@),
            },
    {
        match val {
            Json::Text(st) => {
                if same_text(st.as_str(), "pixel") {
                    Ok(BorderType::Pixel)
                } else if same_text(st.as_str(), "none") {
                    Ok(BorderType::NoBorder)
                } else if same_text(st.as_str(), "normal") {
                    Ok(BorderType::Normal)
                } else {
                    Err(unknown_text("border type", st.as_str()))
                }
            },
            _ => Err(String::from_str("Incompatible JSON value type")),
        }
    }

    /// The name of this border.
    pub fn to_string(&self) -> (r: String)
        ensures
            r@ == self.code(),
    {
        match self {
            BorderType::Pixel => String::from_str("pixel"),
            BorderType::NoBorder => String::from_str("none"),
            BorderType::Normal => String::from_str("normal"),
        }
    }

    /// The unit in which the width of this border is given: none for a
    /// container without border, pixels for the others.
    pub fn unit(&self) -> (r: String)
        ensures
            r@ == self.unit_text(),
    {
        match self {
            BorderType::NoBorder => String::from_str(""),
            _ => String::from_str("px"),
        }
    }
}

impl FloatMode {
    /// The name of this mode in a tree's JSON form.
    pub open spec fn code(self) -> Seq<char> {
        match self {
            FloatMode::AutoOff => "auto_off"@,
            FloatMode::AutoOn => "auto_on"@,
            FloatMode::UserOn => "user_on"@,
            FloatMode::UserOff => "user_off"@,
        }
    }

    /// The mode that `name` names.
    pub open spec fn named(name: Seq<char>) -> Option<FloatMode> {
        if name == "auto_off"@ {
            Some(FloatMode::AutoOff)
        } else if name == "auto_on"@ {
            Some(FloatMode::AutoOn)
        } else if name == "user_on"@ {
            Some(FloatMode::UserOn)
        } else if name == "user_off"@ {
            Some(FloatMode::UserOff)
        } else {
            None
        }
    }

    /// The mode that `value` names: `value` must be a text, and one of the
    /// four names.
    pub open spec fn of(value: JsonView) -> Result<FloatMode, Seq<char>> {
        match value {
            JsonView::Text(name) => match FloatMode::named(name) {
                Some(mode) => Ok(mode),
                None => Err(unknown("floating type"@, name)),
            },
            _ => Err("Incompatible JSON value type"@),
        }
    }

    /// This mode as a diagram shows it.
    pub open spec fn shown(self) -> Seq<char> {
        match self {
            FloatMode::AutoOff => "Auto Off"@,
            FloatMode::AutoOn => "Auto On"@,
            FloatMode::UserOn => "User On"@,
            FloatMode::UserOff => "User Off"@,
        }
    }

    /// Reads a floating mode from the JSON text that names it.
    pub fn try_from(val: &Json) -> (r: Result<FloatMode, String>)
        ensures
            match r {
                Ok(mode) => FloatMode::of(val@) == Ok::<FloatMode, Seq<char>>(mode),
                Err(e) => FloatMode::of(val@) == Err::<FloatMode, Seq<char>>(e@),
            },
    {
        match val {
            Json::Text(st) => {
                if same_text(st.as_str(), "auto_off") {
                    Ok(FloatMode::AutoOff)
                } else if same_text(st.as_str(), "auto_on") {
                    Ok(FloatMode::AutoOn)
                } else if same_text(st.as_str(), "user_on") {
                    Ok(FloatMode::UserOn)
                } else if same_text(st.as_str(), "user_off") {
                    Ok(FloatMode::UserOff)
                } else {
                    Err(unknown_text("floating type", st.as_str()))
                }
            },
            _ => Err(String::from_str("Incompatible JSON value type")),
        }
    }

    /// This mode as a diagram shows it.
    pub fn to_string(&self) -> (r: String)
        ensures
            r@ == self.shown(),
    {
        match self {
            FloatMode::AutoOff => String::from_str("Auto Off"),
            FloatMode::AutoOn => String::from_str("Auto On"),
            FloatMode::UserOn => String::from_str("User On"),
            FloatMode::UserOff => String::from_str("User Off"),
        }
    }
}

impl Layout {
    /// The name of this layout, in a tree's JSON form and in a diagram.
    pub open spec fn code(self) -> Seq<char> {
        match self {
            Layout::Tabbed => "tabbed"@,
            Layout::SplitV => "splitv"@,
            Layout::SplitH => "splith"@,
            Layout::Stacked => "stacked"@,
            Layout::Output => "output"@,
            Layout::DockArea => "dockarea"@,
        }
    }

    /// The layout that `name` names.
    pub open spec fn named(name: Seq<char>) -> Option<Layout> {
        if name == "tabbed"@ {
            Some(Layout::Tabbed)
        } else if name == "splitv"@ {
            Some(Layout::SplitV)
        } else if name == "splith"@ {
            Some(Layout::SplitH)
        } else if name == "stacked"@ {
            Some(Layout::Stacked)
        } else if name == "output"@ {
            Some(Layout::Output)
        } else if name == "dockarea"@ {
            Some(Layout::DockArea)
        } else {
            None
        }
    }

    /// The layout that `value` names: `value` must be a text, and one of the
    /// six names.
    pub open spec fn of(value: JsonView) -> Result<Layout, Seq<char>> {
        match text_of(value) {
            Ok(name) => match Layout::named(name) {
                Some(layout) => Ok(layout),
                None => Err(unknown("layout"@, name)),
            },
            Err(e) => Err(e),
        }
    }

    /// Reads a layout from the JSON text that names it.
    pub fn try_from(val: &Json) -> (r: Result<Layout, String>)
        ensures
            match r {
                Ok(layout) => Layout::of(val@) == Ok::<Layout, Seq<char>>(layout),
                Err(e) => Layout::of(val@) == Err::<Layout, Seq<char>>(e@),
            },
    {
        match try_string(val) {
            Ok(st) => {
                if same_text(st, "tabbed") {
                    Ok(Layout::Tabbed)
                } else if same_text(st, "splitv") {
                    Ok(Layout::SplitV)
                } else if same_text(st, "splith") {
                    Ok(Layout::SplitH)
                } else if same_text(st, "stacked") {
                    Ok(Layout::Stacked)
                } else if same_text(st, "output") {
                    Ok(Layout::Output)
                } else if same_text(st, "dockarea") {
                    Ok(Layout::DockArea)
                } else {
                    Err(unknown_text("layout", st))
                }
            },
            Err(e) => Err(e),
        }
    }

    /// The name of this layout.
    pub fn to_string(&self) -> (r: String)
        ensures
            r@ == self.code(),
    {
        match self {
            Layout::Tabbed => String::from_str("tabbed"),
            Layout::SplitV => String::from_str("splitv"),
            Layout::SplitH => String::from_str("splith"),
            Layout::Stacked => String::from_str("stacked"),
            Layout::Output => String::from_str("output"),
            Layout::DockArea => String::from_str("dockarea"),
        }
    }
}

impl TreeType {
    /// The name of this kind, in a tree's JSON form and in a diagram.
    pub open spec fn code(self) -> Seq<char> {
        match self {
            TreeType::Root => "root"@,
            TreeType::Output => "output"@,
            TreeType::Workspace => "workspace"@,
            TreeType::DockArea => "dockarea"@,
            TreeType::Con => "con"@,
            TreeType::FloatingCon => "floating_con"@,
        }
    }

    /// The kind that `name` names, or the refusal of a name of none.
    pub open spec fn named(name: Seq<char>) -> Result<TreeType, Seq<char>> {
        if name == "root"@ {
            Ok(TreeType::Root)
        } else if name == "output"@ {
            Ok(TreeType::Output)
        } else if name == "workspace"@ {
            Ok(TreeType::Workspace)
        } else if name == "dockarea"@ {
            Ok(TreeType::DockArea)
        } else if name == "con"@ {
            Ok(TreeType::Con)
        } else if name == "floating_con"@ {
            Ok(TreeType::FloatingCon)
        } else {
            Err(unknown("tree type"@, name))
        }
    }

    /// The kind that `value` names: `value` must be a text, and one of the
    /// six names.
    pub open spec fn of(value: JsonView) -> Result<TreeType, Seq<char>> {
        match text_of(value) {
            Ok(name) => TreeType::named(name),
            Err(e) => Err(e),
        }
    }

    /// Reads a kind from its name.
    pub fn from_name(val: &str) -> (r: Result<TreeType, String>)
        ensures
            match r {
                Ok(kind) => TreeType::named(val@) == Ok::<TreeType, Seq<char>>(kind),
                Err(e) => TreeType::named(val@) == Err::<TreeType, Seq<char>>(e@),
            },
    {
        if same_text(val, "root") {
            Ok(TreeType::Root)
        } else if same_text(val, "output") {
            Ok(TreeType::Output)
        } else if same_text(val, "workspace") {
            Ok(TreeType::Workspace)
        } else if same_text(val, "dockarea") {
            Ok(TreeType::DockArea)
        } else if same_text(val, "con") {
            Ok(TreeType::Con)
        } else if same_text(val, "floating_con") {
            Ok(TreeType::FloatingCon)
        } else {
            Err(unknown_text("tree type", val))
        }
    }

    /// Reads a kind from the JSON text that names it.
    pub fn try_from(val: &Json) -> (r: Result<TreeType, String>)
        ensures
            match r {
                Ok(kind) => TreeType::of(val@) == Ok::<TreeType, Seq<char>>(kind),
                Err(e) => TreeType::of(val@) == Err::<TreeType, Seq<char>>(e@),
            },
    {
        match try_string(val) {
            Ok(st) => TreeType::from_name(st),
            Err(e) => Err(e),
        }
    }

    /// The name of this kind.
    pub fn to_string(&self) -> (r: String)
        ensures
            r@ == self.code(),
    {
        match self {
            TreeType::Root => String::from_str("root"),
            TreeType::Output => String::from_str("output"),
            TreeType::Workspace => String::from_str("workspace"),
            TreeType::DockArea => String::from_str("dockarea"),
            TreeType::Con => String::from_str("con"),
            TreeType::FloatingCon => String::from_str("floating_con"),
        }
    }
}

} // verus!
