use vstd::prelude::*;

use crate::parser::{Parser, ParserError};
use crate::tokenizer::{BuiltinTypes, Literals};

verus! {

/// A tree of pattern tokens: a value and the subtrees under it.
#[derive(Debug, PartialEq, Eq)]
pub struct PatternTree {
    pub value: PatternToken,
    pub nodes: Vec<PatternTree>,
}

/// The value of a node of a pattern tree.
#[derive(Debug, PartialEq, Eq)]
pub enum PatternToken {
    Literal(Literals),
    Type(BuiltinTypes),
    Identifier(String),
}

impl PatternTree {
    /// The value of the root.
    pub open spec fn value(self) -> PatternToken {
        self.value
    }

    /// The subtrees under the root, in order.
    pub open spec fn children(self) -> Seq<PatternTree> {
        self.nodes@
    }

    /// A tree of one node.
    pub fn new(value: PatternToken) -> (r: PatternTree)
        ensures
            r.value() == value,
            r.children() == Seq::<PatternTree>::empty(),
    {
        PatternTree { value, nodes: Vec::new() }
    }

    /// The same root, with these subtrees in place of its own.
    pub fn nodes(self, nodes: Vec<PatternTree>) -> (r: PatternTree)
        ensures
            r.value() == self.value(),
            r.children() == nodes@,
    {
        let mut t = self;
        t.nodes = nodes;
        t
    }

    /// Reads a pattern tree. As it stands, the reader takes no token and
    /// always gives the single node that holds the string literal `Hello`.
    pub fn try_from(value: &mut Parser) -> (r: Result<PatternTree, ParserError>)
        ensures
            r matches Ok(t) && t.value() matches PatternToken::Literal(Literals::String(s)) && s@
                == "Hello"@ && t.children().len() == 0,
            final(value)@ == old(value)@,
    {
        Ok(PatternTree::new(PatternToken::Literal(Literals::String(String::from_str("Hello")))))
    }
}

} // verus!
