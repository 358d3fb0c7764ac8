use vstd::prelude::*;

verus! {

/// The closed set of node kinds that can be stored.
#[derive(Clone, Copy, Debug, PartialEq, Eq, Structural)]
pub enum NodeType {
    Geo,
    Text,
    Note,
}

/// The stored name of a node kind.
pub open spec fn kind_name(t: NodeType) -> Seq<char> {
    match t {
        NodeType::Geo => seq!['g', 'e', 'o'],
        NodeType::Text => seq!['t', 'e', 'x', 't'],
        NodeType::Note => seq!['n', 'o', 't', 'e'],
    }
}

impl NodeType {
    /// The name under which this kind is stored.
    pub fn as_str(&self) -> (r: &'static str)
        ensures
            r@ == kind_name(*self),
    {
        match self {
            NodeType::Geo => {
                proof { reveal_strlit("geo"); }
                "geo"
            },
            NodeType::Text => {
                proof { reveal_strlit("text"); }
                "text"
            },
            NodeType::Note => {
                proof { reveal_strlit("note"); }
                "note"
            },
        }
    }
}

/// A binary64 number carried by its IEEE-754 bit pattern.
#[derive(Clone, Copy, Debug, PartialEq, Eq, Structural)]
pub struct Real64 {
    pub bits: u64,
}

impl Real64 {
    /// Neither infinite nor NaN: the exponent field is not all ones.
    pub open spec fn spec_finite(self) -> bool {
        (self.bits >> 52u64) & 0x7ffu64 != 0x7ffu64
    }

    /// Finite and strictly greater than zero: sign bit clear, not a zero.
    pub open spec fn spec_positive_finite(self) -> bool {
        self.spec_finite() && self.bits >> 63u64 == 0 && self.bits != 0
    }

    /// Whether the number is neither infinite nor NaN.
    pub fn is_finite(&self) -> (r: bool)
        ensures
            r == self.spec_finite(),
    {
        (self.bits >> 52u64) & 0x7ffu64 != 0x7ffu64
    }

    /// Whether the number is finite and strictly greater than zero.
    pub fn is_positive_finite(&self) -> (r: bool)
        ensures
            r == self.spec_positive_finite(),
    {
        self.is_finite() && self.bits >> 63u64 == 0 && self.bits != 0
    }
}

/// A node as submitted for writing, before validation.
#[derive(Clone, Debug)]
pub struct NodePayload {
    pub id: String,
    pub node_type: String,
    pub x: Real64,
    pub y: Real64,
    pub content: String,
    pub width: Option<Real64>,
    pub height: Option<Real64>,
}

/// The mathematical value of a payload.
pub struct PayloadView {
    pub id: Seq<char>,
    pub node_type: Seq<char>,
    pub x: Real64,
    pub y: Real64,
    pub content: Seq<char>,
    pub width: Option<Real64>,
    pub height: Option<Real64>,
}

impl View for NodePayload {
    type V = PayloadView;

    open spec fn view(&self) -> PayloadView {
        PayloadView {
            id: self.id@,
            node_type: self.node_type@,
            x: self.x,
            y: self.y,
            content: self.content@,
            width: self.width,
            height: self.height,
        }
    }
}

/// A stored node: normalized identifier and a kind of the closed set.
#[derive(Clone, Debug)]
pub struct Node {
    pub id: String,
    pub node_type: NodeType,
    pub x: Real64,
    pub y: Real64,
    pub content: String,
    pub width: Option<Real64>,
    pub height: Option<Real64>,
}

/// The mathematical value of a stored node.
pub struct NodeView {
    pub id: Seq<char>,
    pub node_type: NodeType,
    pub x: Real64,
    pub y: Real64,
    pub content: Seq<char>,
    pub width: Option<Real64>,
    pub height: Option<Real64>,
}

impl View for Node {
    type V = NodeView;

    open spec fn view(&self) -> NodeView {
        NodeView {
            id: self.id@,
            node_type: self.node_type,
            x: self.x,
            y: self.y,
            content: self.content@,
            width: self.width,
            height: self.height,
        }
    }
}

} // verus!
