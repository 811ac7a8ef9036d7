//! The node of a parse tree, for a parser that builds one from the tokens.

use vstd::prelude::*;

verus! {

/// What a node of the parse tree stands for.
#[derive(Debug)]
pub enum TokenType {
    Product,
    Sum,
    Number(i64),
    Paren,
}

/// A node of the parse tree: what it stands for, and the nodes below it.
#[derive(Debug)]
pub struct ParseNode {
    children: Vec<ParseNode>,
    entry: TokenType,
}

impl ParseNode {
    /// The nodes below this one, from left to right.
    pub closed spec fn children(&self) -> Seq<ParseNode> {
        self.children@
    }

    /// What this node stands for.
    pub closed spec fn entry(&self) -> TokenType {
        self.entry
    }

    /// A node for `token_type` with no nodes below it.
    pub fn new(token_type: TokenType) -> (node: ParseNode)
        ensures
            node.entry() == token_type,
            node.children() == Seq::<ParseNode>::empty(),
    {
        ParseNode { children: Vec::new(), entry: token_type }
    }
}

} // verus!
