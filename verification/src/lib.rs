//! Turns the layout tree of a tiling window manager, given as JSON values,
//! into the text of a Graphviz diagram.
//!
//! [`node::Node::try_from`] validates a JSON value and builds the tree of
//! containers, or says which member of which object is at fault.
//! [`node::Node::pretty_print`] draws a tree as record-shaped diagram
//! elements with edges between them; [`render::Settings`] say how much of the
//! tree is drawn. [`diagram`] frames the drawings of several trees.
//!
//! Every function states in its contract what it returns, over the views of
//! its arguments: [`decode::decode`] is the tree that a value describes,
//! [`render::fragment`] the text that a tree is drawn as. What holds of
//! every value and every tree is proved in [`decode_laws`], [`canonical`] and
//! [`render_laws`].

pub mod canonical;
pub mod decode;
pub mod decode_laws;
pub mod diagram;
pub mod fraction;
pub mod geometry;
pub mod json;
pub mod kinds;
pub mod node;
pub mod render;
pub mod render_laws;
pub mod text;
pub mod utils;
