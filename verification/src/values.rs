//! The plain values that the graphs hold: scalars, positions, payloads, and
//! the error kinds of the mutation functions.

use vstd::prelude::*;

verus! {

/// A single-precision number, held as its IEEE-754 bit pattern. The library
/// stores and copies such numbers and never computes with them.
#[derive(Clone, Copy, Debug, PartialEq, Eq, Structural)]
pub struct Scalar {
    pub bits: u32,
}

impl Scalar {
    /// The number with the given bit pattern.
    pub fn from_bits(bits: u32) -> (s: Scalar)
        ensures
            s.bits == bits,
    {
        Scalar { bits }
    }

    /// The bit pattern of the number.
    pub fn to_bits(&self) -> (bits: u32)
        ensures
            bits == self.bits,
    {
        self.bits
    }
}

impl Default for Scalar {
    /// Positive zero.
    fn default() -> (s: Scalar)
        ensures
            s.bits == 0,
    {
        Scalar { bits: 0 }
    }
}

/// A point of the plane.
#[derive(Clone, Copy, Debug, PartialEq, Eq, Structural)]
pub struct Position {
    pub x: Scalar,
    pub y: Scalar,
}

impl Position {
    /// The point whose coordinates have the given bit patterns.
    pub fn from_bits(x: u32, y: u32) -> (p: Position)
        ensures
            p.x.bits == x,
            p.y.bits == y,
    {
        Position { x: Scalar { bits: x }, y: Scalar { bits: y } }
    }
}

impl Default for Position {
    /// The origin.
    fn default() -> (p: Position)
        ensures
            p.x.bits == 0,
            p.y.bits == 0,
    {
        Position { x: Scalar { bits: 0 }, y: Scalar { bits: 0 } }
    }
}

/// What a node carries: its label, unique in the graph, and its weight.
#[derive(Debug)]
pub struct NodePayload {
    pub label: String,
    pub weight: Scalar,
}

/// The mathematical value of a `NodePayload`.
pub ghost struct NodeData {
    pub label: Seq<char>,
    pub weight: Scalar,
}

impl View for NodePayload {
    type V = NodeData;

    open spec fn view(&self) -> NodeData {
        NodeData { label: self.label@, weight: self.weight }
    }
}

impl Clone for NodePayload {
    fn clone(&self) -> (copy: NodePayload)
        ensures
            copy == *self,
    {
        NodePayload { label: self.label.clone(), weight: self.weight }
    }
}

impl Default for NodePayload {
    /// The empty label with weight zero.
    fn default() -> (p: NodePayload)
        ensures
            p.label@.len() == 0,
            p.weight.bits == 0,
    {
        NodePayload { label: String::new(), weight: Scalar { bits: 0 } }
    }
}

/// What an edge carries: a label, which need not be unique, and a weight.
#[derive(Debug)]
pub struct EdgePayload {
    pub label: String,
    pub weight: Scalar,
}

/// The mathematical value of an `EdgePayload`.
pub ghost struct EdgeData {
    pub label: Seq<char>,
    pub weight: Scalar,
}

impl View for EdgePayload {
    type V = EdgeData;

    open spec fn view(&self) -> EdgeData {
        EdgeData { label: self.label@, weight: self.weight }
    }
}

impl Clone for EdgePayload {
    fn clone(&self) -> (copy: EdgePayload)
        ensures
            copy == *self,
    {
        EdgePayload { label: self.label.clone(), weight: self.weight }
    }
}

impl Default for EdgePayload {
    /// The empty label with weight zero.
    fn default() -> (p: EdgePayload)
        ensures
            p.label@.len() == 0,
            p.weight.bits == 0,
    {
        EdgePayload { label: String::new(), weight: Scalar { bits: 0 } }
    }
}

/// A node as a graph stores it: its payload and where it lies.
#[derive(Debug)]
pub struct PlacedNode {
    pub payload: NodePayload,
    pub position: Position,
}

/// The mathematical value of a stored node.
pub ghost struct NodeView {
    pub label: Seq<char>,
    pub weight: Scalar,
    pub position: Position,
}

impl View for PlacedNode {
    type V = NodeView;

    open spec fn view(&self) -> NodeView {
        NodeView { label: self.payload.label@, weight: self.payload.weight, position: self.position }
    }
}

impl Clone for PlacedNode {
    fn clone(&self) -> (copy: PlacedNode)
        ensures
            copy == *self,
    {
        PlacedNode { payload: self.payload.clone(), position: self.position }
    }
}

/// The mathematical value of a stored edge: its two ends, as identifiers of
/// the graph that holds it, and its payload.
pub ghost struct EdgeView {
    pub source: u32,
    pub target: u32,
    pub label: Seq<char>,
    pub weight: Scalar,
}

/// The value of an edge from `source` to `target` that carries `payload`.
pub open spec fn edge_view(source: u32, target: u32, payload: EdgeData) -> EdgeView {
    EdgeView { source, target, label: payload.label, weight: payload.weight }
}

/// What a generated node starts with: its weight, its place in the display
/// graph and its place in the simulation graph.
#[derive(Clone, Copy, Debug, PartialEq, Eq, Structural)]
pub struct NodeSeed {
    pub weight: Scalar,
    pub position: Position,
    pub sim_position: Position,
}

/// Where the solver has put the simulation node `node`.
#[derive(Clone, Copy, Debug, PartialEq, Eq, Structural)]
pub struct Placement {
    pub node: u32,
    pub position: Position,
}

/// Why a mutation was refused. A refused mutation changes nothing.
#[derive(Clone, Copy, Debug, PartialEq, Eq, Structural)]
pub enum GraphError {
    /// A node with this label is already there.
    DuplicateLabel,
    /// No node or edge answers to the label or identifier.
    NotFound,
    /// A self-loop, an empty label, or the wrong number of selected nodes.
    InvalidOperation,
    /// One of the two graphs lacks what the other one has.
    InternalInconsistency,
}

} // verus!
