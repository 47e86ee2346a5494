//! The declaration tree that the search works on, and its mathematical model.

use vstd::prelude::*;

verus! {

/// What a declaration declares, as far as the search cares.
#[derive(Clone, Copy, Debug, PartialEq, Eq, Structural)]
pub enum NodeKind {
    Class,
    Struct,
    Field,
    Other,
}

/// Where a declaration with a known source location was written.
#[derive(Clone, Copy, Debug, PartialEq, Eq, Structural)]
pub enum Origin {
    /// In the file that was handed to the parser.
    Primary,
    /// In a file that the primary file includes, directly or not.
    Included,
}

/// One declaration of a parsed source file.
#[derive(Debug)]
pub struct Node {
    pub kind: NodeKind,
    /// The declaration's display name; `None` for an anonymous declaration.
    pub display_name: Option<String>,
    /// `None` where the declaration has no source location.
    pub location: Option<Origin>,
    /// The display name of the declaration's type, as the parser renders it;
    /// `None` where the declaration has no type.
    pub type_display: Option<String>,
    /// The direct children, in declaration order.
    pub children: Vec<Node>,
}

/// The model of a [`Node`]: the same tree over sequences of characters.
pub ghost struct Decl {
    pub kind: NodeKind,
    pub name: Option<Seq<char>>,
    pub origin: Option<Origin>,
    pub type_display: Option<Seq<char>>,
    pub children: Seq<Decl>,
}

/// The model of an optional string.
pub open spec fn opt_text(s: Option<String>) -> Option<Seq<char>> {
    match s {
        Some(t) => Some(t@),
        None => None,
    }
}

/// The model of a declaration and, through it, of everything below it.
pub open spec fn decl_of(node: Node) -> Decl
    decreases node,
{
    Decl {
        kind: node.kind,
        name: opt_text(node.display_name),
        origin: node.location,
        type_display: opt_text(node.type_display),
        children: Seq::new(
            node.children@.len(),
            |i: int|
                if 0 <= i < node.children@.len() {
                    decl_of(node.children@[i])
                } else {
                    arbitrary()
                },
        ),
    }
}

impl View for Node {
    type V = Decl;

    open spec fn view(&self) -> Decl {
        decl_of(*self)
    }
}

/// The models of a sequence of declarations, in order.
pub open spec fn models(nodes: Seq<Node>) -> Seq<Decl> {
    nodes.map_values(|n: Node| n@)
}

impl Node {
    /// The model's children are the models of the children, in order.
    pub proof fn lemma_view_children(&self)
        ensures
            self@.children == models(self.children@),
    {
        assert(self@.children =~= models(self.children@));
    }
}

} // verus!
