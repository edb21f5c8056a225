//! The graph model: named nodes, directed chain edges with style
//! attributes, and rank-alignment groups. A rendering adapter encodes a
//! `GraphModel` into a textual graph-description format; the model itself
//! carries no layout.

use vstd::prelude::*;
use crate::record::CategoryKind;

verus! {

/// Stable identity of one node in the diagram, derived from the node's
/// role and the positions it belongs to, so that no two distinct nodes
/// can collide.
#[derive(Clone, Copy, Debug, PartialEq, Eq, Hash, Structural)]
pub enum NodeId {
    /// A shared layer node of the upper projection backbone.
    TopLayer(CategoryKind),
    /// A shared layer node of the lower (operator) backbone.
    BotLayer(CategoryKind),
    /// The category node of the unit at the given position.
    Category(usize),
    /// The per-unit periphery node of a periphery-kind attachment.
    Periphery(CategoryKind, usize),
    /// The terminal node of the unit at the given position.
    Terminal(usize),
    /// One operator node: unit position, then attachment position.
    Operator(usize, usize),
    /// The head unit's mirror node on the lower backbone.
    CategoryBot(usize),
}

/// One named node with its display label; `main` tags the nodes that a
/// renderer should keep on the central spine group.
#[derive(Clone, Debug, PartialEq)]
pub struct Node {
    /// The node's identity.
    pub id: NodeId,
    /// The text shown at the node.
    pub label: String,
    /// Whether the node belongs to the central spine group.
    pub main: bool,
}

/// Spec-level image of a `Node`.
#[verifier::ext_equal]
pub ghost struct NodeView {
    pub id: NodeId,
    pub label: Seq<char>,
    pub main: bool,
}

impl View for Node {
    type V = NodeView;

    open spec fn view(&self) -> NodeView {
        NodeView { id: self.id, label: self.label@, main: self.main }
    }
}

/// One directed chain of two or more nodes, with style attributes.
/// A chain of `k` points stands for the `k - 1` edges between adjacent
/// points.
#[derive(Clone, Debug, PartialEq)]
pub struct Edge {
    /// The ordered endpoints of the chain.
    pub points: Vec<NodeId>,
    /// Drawn dotted (marks scope without directionality).
    pub dotted: bool,
    /// Not drawn at all (used only to force an ordering).
    pub invisible: bool,
    /// Drawn without an arrowhead (a structural spine, not a relation).
    pub arrowless: bool,
}

/// Spec-level image of an `Edge`.
#[verifier::ext_equal]
pub ghost struct EdgeView {
    pub points: Seq<NodeId>,
    pub dotted: bool,
    pub invisible: bool,
    pub arrowless: bool,
}

impl View for Edge {
    type V = EdgeView;

    open spec fn view(&self) -> EdgeView {
        EdgeView {
            points: self.points@,
            dotted: self.dotted,
            invisible: self.invisible,
            arrowless: self.arrowless,
        }
    }
}

/// The whole diagram: nodes, chain edges, and rank-alignment groups
/// (each a list of node identities that must render on one horizontal
/// rank, kept in emission order).
#[derive(Clone, Debug, PartialEq)]
pub struct GraphModel {
    /// Every node of the diagram.
    pub nodes: Vec<Node>,
    /// Every chain edge of the diagram.
    pub edges: Vec<Edge>,
    /// Every rank-alignment group.
    pub ranks: Vec<Vec<NodeId>>,
}

/// Spec-level image of a `GraphModel`.
#[verifier::ext_equal]
pub ghost struct GraphModelView {
    pub nodes: Seq<NodeView>,
    pub edges: Seq<EdgeView>,
    pub ranks: Seq<Seq<NodeId>>,
}

/// The spec-level images of a sequence of nodes.
pub open spec fn node_views(ns: Seq<Node>) -> Seq<NodeView> {
    ns.map_values(|n: Node| n@)
}

/// The spec-level images of a sequence of edges.
pub open spec fn edge_views(es: Seq<Edge>) -> Seq<EdgeView> {
    es.map_values(|e: Edge| e@)
}

/// The spec-level images of a sequence of rank groups.
pub open spec fn rank_views(rs: Seq<Vec<NodeId>>) -> Seq<Seq<NodeId>> {
    rs.map_values(|r: Vec<NodeId>| r@)
}

impl View for GraphModel {
    type V = GraphModelView;

    open spec fn view(&self) -> GraphModelView {
        GraphModelView {
            nodes: node_views(self.nodes@),
            edges: edge_views(self.edges@),
            ranks: rank_views(self.ranks@),
        }
    }
}

} // verus!
