//! The graph builder: one linear pass over the ordered unit sequence
//! emits the fixed ten-node projection backbone, the per-unit category,
//! periphery, operator and terminal nodes with their edges, the central
//! spine through the single head unit, and the horizontal rank-alignment
//! groups.

use vstd::prelude::*;
use crate::model::{Edge, EdgeView, GraphModel, GraphModelView, Node, NodeId, NodeView};
use crate::model::{edge_views, node_views, rank_views};
use crate::record::{BottomAttachment, BottomAttachmentView, CategoryKind, TopAttachment, TopAttachmentView, Unit, UnitView};
use crate::record::unit_views;

verus! {

/// Why a build failed: the unit sequence has no head, or several.
#[derive(Clone, Copy, Debug, PartialEq, Eq, Structural)]
pub enum BuildError {
    /// No unit has a `Pred`-kind top attachment.
    MissingHead,
    /// More than one unit has a `Pred`-kind top attachment.
    MultipleHeads,
}

/// Whether the unit is the designated head: it carries a `Pred`-kind top.
pub open spec fn is_head(u: UnitView) -> bool {
    match u.top {
        Some(t) => t.kind is Pred,
        None => false,
    }
}

/// How many units of the sequence are heads.
pub open spec fn head_count(us: Seq<UnitView>) -> nat
    decreases us.len(),
{
    if us.len() == 0 {
        0
    } else {
        head_count(us.drop_last()) + if is_head(us.last()) {
            1nat
        } else {
            0nat
        }
    }
}

/// The five proper layers of the projection backbone, outermost first.
pub open spec fn backbone_layers() -> Seq<CategoryKind> {
    seq![
        CategoryKind::Sentence,
        CategoryKind::Clause,
        CategoryKind::Core,
        CategoryKind::Nuc,
        CategoryKind::Pred,
    ]
}

/// One shared layer node of the upper backbone.
pub open spec fn top_layer_node(k: CategoryKind) -> NodeView {
    NodeView { id: NodeId::TopLayer(k), label: k.spec_name(), main: true }
}

/// One shared layer node of the lower backbone.
pub open spec fn bot_layer_node(k: CategoryKind) -> NodeView {
    NodeView { id: NodeId::BotLayer(k), label: k.spec_name(), main: true }
}

/// The ten fixed backbone nodes: the upper five, then the lower five,
/// each in outermost-first order.
pub open spec fn backbone_nodes() -> Seq<NodeView> {
    backbone_layers().map_values(|k: CategoryKind| top_layer_node(k))
        + backbone_layers().map_values(|k: CategoryKind| bot_layer_node(k))
}

/// An arrowless chain edge.
pub open spec fn plain_chain(points: Seq<NodeId>) -> EdgeView {
    EdgeView { points, dotted: false, invisible: false, arrowless: true }
}

/// The five proper layers of the projection backbone, innermost first.
pub open spec fn backbone_layers_mirrored() -> Seq<CategoryKind> {
    seq![
        CategoryKind::Pred,
        CategoryKind::Nuc,
        CategoryKind::Core,
        CategoryKind::Clause,
        CategoryKind::Sentence,
    ]
}

/// The two backbone chains: the upper hierarchy outermost-first, the
/// lower hierarchy innermost-first, each arrowless.
pub open spec fn backbone_edges() -> Seq<EdgeView> {
    seq![
        plain_chain(backbone_layers().map_values(|k: CategoryKind| NodeId::TopLayer(k))),
        plain_chain(backbone_layers_mirrored().map_values(|k: CategoryKind| NodeId::BotLayer(k))),
    ]
}

/// The nodes contributed by the top attachment of the unit at position `i`:
/// the category node, beside it the head's lower mirror node or a
/// periphery-kind attachment's periphery node.
pub open spec fn top_nodes(top: Option<TopAttachmentView>, i: int) -> Seq<NodeView> {
    match top {
        None => seq![],
        Some(t) => if t.kind is Pred {
            seq![
                NodeView { id: NodeId::CategoryBot(i as usize), label: t.category_label, main: true },
                NodeView { id: NodeId::Category(i as usize), label: t.category_label, main: true },
            ]
        } else if t.kind.spec_periphery_base() is Some {
            seq![
                NodeView { id: NodeId::Category(i as usize), label: t.category_label, main: false },
                NodeView { id: NodeId::Periphery(t.kind, i as usize), label: "Periphery"@, main: false },
            ]
        } else {
            seq![NodeView { id: NodeId::Category(i as usize), label: t.category_label, main: false }]
        },
    }
}

/// The edges contributed by the top attachment of the unit at position `i`:
/// for a non-head attachment, the arrowless chain from the terminal through
/// the category node into the backbone, and for a periphery kind also the
/// edge from the periphery node to its base layer.
pub open spec fn top_edges(top: Option<TopAttachmentView>, i: int) -> Seq<EdgeView> {
    match top {
        None => seq![],
        Some(t) => if t.kind is Pred {
            seq![]
        } else {
            match t.kind.spec_periphery_base() {
                Some(base) => seq![
                    plain_chain(
                        seq![
                            NodeId::Terminal(i as usize),
                            NodeId::Category(i as usize),
                            NodeId::Periphery(t.kind, i as usize),
                        ],
                    ),
                    EdgeView {
                        points: seq![NodeId::Periphery(t.kind, i as usize), NodeId::TopLayer(base)],
                        dotted: false,
                        invisible: false,
                        arrowless: false,
                    },
                ],
                None => seq![
                    plain_chain(
                        seq![
                            NodeId::Terminal(i as usize),
                            NodeId::Category(i as usize),
                            NodeId::TopLayer(t.kind),
                        ],
                    ),
                ],
            }
        },
    }
}

/// The rank groups contributed by the top attachment of the unit at
/// position `i`: a periphery node renders level with its base layer.
pub open spec fn top_ranks(top: Option<TopAttachmentView>, i: int) -> Seq<Seq<NodeId>> {
    match top {
        None => seq![],
        Some(t) => match t.kind.spec_periphery_base() {
            Some(base) => seq![
                seq![NodeId::TopLayer(base), NodeId::Periphery(t.kind, i as usize)],
            ],
            None => seq![],
        },
    }
}

/// The operator nodes of the first `bs.len()` bottom attachments of the
/// unit at position `i`, in attachment order.
pub open spec fn ops_nodes(bs: Seq<BottomAttachmentView>, i: int) -> Seq<NodeView>
    decreases bs.len(),
{
    if bs.len() == 0 {
        seq![]
    } else {
        ops_nodes(bs.drop_last(), i) + seq![
            NodeView {
                id: NodeId::Operator(i as usize, (bs.len() - 1) as usize),
                label: bs.last().operator_label,
                main: false,
            },
        ]
    }
}

/// The edges of one bottom attachment at position `j` of unit `i`: a
/// dotted arrowless edge from the terminal to the operator node, then a
/// plain edge from the operator node to the scoped lower layer.
pub open spec fn op_edges(b: BottomAttachmentView, i: int, j: int) -> Seq<EdgeView> {
    seq![
        EdgeView {
            points: seq![NodeId::Terminal(i as usize), NodeId::Operator(i as usize, j as usize)],
            dotted: true,
            invisible: false,
            arrowless: true,
        },
        EdgeView {
            points: seq![NodeId::Operator(i as usize, j as usize), NodeId::BotLayer(b.kind)],
            dotted: false,
            invisible: false,
            arrowless: false,
        },
    ]
}

/// The edges of the first `bs.len()` bottom attachments of unit `i`.
pub open spec fn ops_edges(bs: Seq<BottomAttachmentView>, i: int) -> Seq<EdgeView>
    decreases bs.len(),
{
    if bs.len() == 0 {
        seq![]
    } else {
        ops_edges(bs.drop_last(), i) + op_edges(bs.last(), i, bs.len() - 1)
    }
}

/// The rank groups of the first `bs.len()` bottom attachments of unit `i`:
/// each operator renders level with the layer it scopes.
pub open spec fn ops_ranks(bs: Seq<BottomAttachmentView>, i: int) -> Seq<Seq<NodeId>>
    decreases bs.len(),
{
    if bs.len() == 0 {
        seq![]
    } else {
        ops_ranks(bs.drop_last(), i) + seq![
            seq![
                NodeId::BotLayer(bs.last().kind),
                NodeId::Operator(i as usize, (bs.len() - 1) as usize),
            ],
        ]
    }
}

/// The bottom attachments of a unit, an absent list counting as empty.
pub open spec fn bottoms_of(u: UnitView) -> Seq<BottomAttachmentView> {
    match u.bottoms {
        Some(bs) => bs,
        None => seq![],
    }
}

/// All nodes contributed by the unit at position `i`: top-attachment
/// nodes, operator nodes, then the terminal node, tagged `main` exactly
/// for the head.
pub open spec fn unit_nodes(u: UnitView, i: int) -> Seq<NodeView> {
    top_nodes(u.top, i) + ops_nodes(bottoms_of(u), i) + seq![
        NodeView { id: NodeId::Terminal(i as usize), label: u.surface_label, main: is_head(u) },
    ]
}

/// All edges contributed by the unit at position `i`.
pub open spec fn unit_edges(u: UnitView, i: int) -> Seq<EdgeView> {
    top_edges(u.top, i) + ops_edges(bottoms_of(u), i)
}

/// All rank groups contributed by the unit at position `i`.
pub open spec fn unit_ranks(u: UnitView, i: int) -> Seq<Seq<NodeId>> {
    top_ranks(u.top, i) + ops_ranks(bottoms_of(u), i)
}

/// The nodes of the first `us.len()` units, in unit order.
pub open spec fn units_nodes(us: Seq<UnitView>) -> Seq<NodeView>
    decreases us.len(),
{
    if us.len() == 0 {
        seq![]
    } else {
        units_nodes(us.drop_last()) + unit_nodes(us.last(), us.len() - 1)
    }
}

/// The edges of the first `us.len()` units, in unit order.
pub open spec fn units_edges(us: Seq<UnitView>) -> Seq<EdgeView>
    decreases us.len(),
{
    if us.len() == 0 {
        seq![]
    } else {
        units_edges(us.drop_last()) + unit_edges(us.last(), us.len() - 1)
    }
}

/// The rank groups of the first `us.len()` units, in unit order.
pub open spec fn units_ranks(us: Seq<UnitView>) -> Seq<Seq<NodeId>>
    decreases us.len(),
{
    if us.len() == 0 {
        seq![]
    } else {
        units_ranks(us.drop_last()) + unit_ranks(us.last(), us.len() - 1)
    }
}

/// The thirteen points of the central spine through the head at
/// position `h`: the upper backbone, the head's category node, its
/// terminal, its lower mirror node, then the lower backbone.
pub open spec fn spine_points(h: int) -> Seq<NodeId> {
    backbone_layers().map_values(|k: CategoryKind| NodeId::TopLayer(k)) + seq![
        NodeId::Category(h as usize),
        NodeId::Terminal(h as usize),
        NodeId::CategoryBot(h as usize),
    ] + backbone_layers_mirrored().map_values(|k: CategoryKind| NodeId::BotLayer(k))
}

/// The terminal nodes of all units, in unit order.
pub open spec fn terminal_rank(n: int) -> Seq<NodeId> {
    Seq::new(n as nat, |i: int| NodeId::Terminal(i as usize))
}

/// The category nodes of all units that have a top attachment, in unit
/// order.
pub open spec fn category_rank(us: Seq<UnitView>) -> Seq<NodeId>
    decreases us.len(),
{
    if us.len() == 0 {
        seq![]
    } else {
        category_rank(us.drop_last()) + match us.last().top {
            Some(_) => seq![NodeId::Category((us.len() - 1) as usize)],
            None => seq![],
        }
    }
}

/// The whole graph model built from the unit sequence `us` whose head
/// stands at position `h`: the backbone, every unit's contribution, the
/// central spine, the invisible left-to-right chain over the terminals,
/// and the two horizontal rank groups.
pub open spec fn spec_model(us: Seq<UnitView>, h: int) -> GraphModelView {
    GraphModelView {
        nodes: backbone_nodes() + units_nodes(us),
        edges: backbone_edges() + units_edges(us) + seq![
            plain_chain(spine_points(h)),
            EdgeView {
                points: terminal_rank(us.len() as int),
                dotted: false,
                invisible: true,
                arrowless: false,
            },
        ],
        ranks: units_ranks(us) + seq![terminal_rank(us.len() as int), category_rank(us)],
    }
}

/// How many units of the sequence have a top attachment.
pub open spec fn top_count(us: Seq<UnitView>) -> nat
    decreases us.len(),
{
    if us.len() == 0 {
        0
    } else {
        top_count(us.drop_last()) + if us.last().top is Some {
            1nat
        } else {
            0nat
        }
    }
}

/// The kind of the unit's top attachment, if that kind is a periphery
/// variant.
pub open spec fn periphery_kind_of(u: UnitView) -> Option<CategoryKind> {
    match u.top {
        Some(t) => if t.kind.spec_periphery_base() is Some {
            Some(t.kind)
        } else {
            None
        },
        None => None,
    }
}

/// A head somewhere in the sequence makes the head count positive.
pub proof fn lemma_head_present(us: Seq<UnitView>, i: int)
    requires
        0 <= i < us.len(),
        is_head(us[i]),
    ensures
        head_count(us) >= 1,
    decreases us.len(),
{
    if i < us.len() - 1 {
        lemma_head_present(us.drop_last(), i);
    }
}

/// With a head count of one, the head's position is unique.
pub proof fn lemma_head_unique(us: Seq<UnitView>, i: int, j: int)
    requires
        head_count(us) == 1,
        0 <= i < us.len(),
        is_head(us[i]),
        0 <= j < us.len(),
        is_head(us[j]),
    ensures
        i == j,
    decreases us.len(),
{
    if i < us.len() - 1 && j < us.len() - 1 {
        lemma_head_present(us.drop_last(), i);
        lemma_head_unique(us.drop_last(), i, j);
    } else if i == us.len() - 1 && j < us.len() - 1 {
        lemma_head_present(us.drop_last(), j);
    } else if j == us.len() - 1 && i < us.len() - 1 {
        lemma_head_present(us.drop_last(), i);
    }
}

/// The model is a function of the unit sequence alone: two models built
/// from the same sequence, each around a head position of that sequence,
/// are structurally identical.
pub proof fn lemma_build_deterministic(
    us: Seq<UnitView>,
    m1: GraphModelView,
    m2: GraphModelView,
    h1: int,
    h2: int,
)
    requires
        head_count(us) == 1,
        0 <= h1 < us.len(),
        is_head(us[h1]),
        m1 == spec_model(us, h1),
        0 <= h2 < us.len(),
        is_head(us[h2]),
        m2 == spec_model(us, h2),
    ensures
        m1 == m2,
{
    lemma_head_unique(us, h1, h2);
}

/// The central spine is the next-to-last edge of the model and chains
/// exactly thirteen points: the five upper backbone layers, the head's
/// category node, its terminal, its lower mirror node, and the five
/// lower backbone layers.
pub proof fn lemma_central_spine(us: Seq<UnitView>, h: int)
    ensures
        spec_model(us, h).edges.len() >= 2,
        spec_model(us, h).edges[spec_model(us, h).edges.len() - 2] == plain_chain(spine_points(h)),
        spine_points(h).len() == 13,
{
    let m = spec_model(us, h);
    let tail = seq![
        plain_chain(spine_points(h)),
        EdgeView {
            points: terminal_rank(us.len() as int),
            dotted: false,
            invisible: true,
            arrowless: false,
        },
    ];
    assert(m.edges == backbone_edges() + units_edges(us) + tail);
    assert(m.edges[m.edges.len() - 2] == tail[0]);
}

/// The terminal rank-alignment group is the next-to-last group of the
/// model; it has exactly one entry per unit and lists the terminal nodes
/// in unit order.
pub proof fn lemma_terminal_rank(us: Seq<UnitView>, h: int)
    ensures
        spec_model(us, h).ranks.len() >= 2,
        spec_model(us, h).ranks[spec_model(us, h).ranks.len() - 2] == terminal_rank(
            us.len() as int,
        ),
        spec_model(us, h).ranks[spec_model(us, h).ranks.len() - 2].len() == us.len(),
{
    let m = spec_model(us, h);
    let tail = seq![terminal_rank(us.len() as int), category_rank(us)];
    assert(m.ranks == units_ranks(us) + tail);
    assert(m.ranks[m.ranks.len() - 2] == tail[0]);
}

/// The category rank-alignment group has exactly one entry per unit with
/// a top attachment.
pub proof fn lemma_category_rank_len(us: Seq<UnitView>)
    ensures
        category_rank(us).len() == top_count(us),
    decreases us.len(),
{
    if us.len() > 0 {
        lemma_category_rank_len(us.drop_last());
    }
}

/// The category rank-alignment group is the last group of the model; its
/// cardinality is the count of units with a top attachment.
pub proof fn lemma_category_rank(us: Seq<UnitView>, h: int)
    ensures
        spec_model(us, h).ranks.len() >= 2,
        spec_model(us, h).ranks.last() == category_rank(us),
        spec_model(us, h).ranks.last().len() == top_count(us),
{
    let m = spec_model(us, h);
    let tail = seq![terminal_rank(us.len() as int), category_rank(us)];
    assert(m.ranks == units_ranks(us) + tail);
    assert(m.ranks.last() == tail[1]);
    lemma_category_rank_len(us);
}

/// Every edge contributed by the unit at position `i` stands in the model.
pub proof fn lemma_unit_edge_present(us: Seq<UnitView>, i: int, e: EdgeView)
    requires
        0 <= i < us.len(),
        unit_edges(us[i], i).contains(e),
    ensures
        units_edges(us).contains(e),
    decreases us.len(),
{
    if i == us.len() - 1 {
        let k = choose |k: int|
            0 <= k < unit_edges(us[i], i).len() && unit_edges(us[i], i)[k] == e;
        assert(units_edges(us)[units_edges(us.drop_last()).len() + k] == e);
    } else {
        lemma_unit_edge_present(us.drop_last(), i, e);
        let k = choose |k: int|
            0 <= k < units_edges(us.drop_last()).len() && units_edges(us.drop_last())[k] == e;
        assert(units_edges(us)[k] == e);
    }
}

/// Every edge contributed by a unit stands in the built model.
pub proof fn lemma_model_edge_present(us: Seq<UnitView>, h: int, i: int, e: EdgeView)
    requires
        0 <= i < us.len(),
        unit_edges(us[i], i).contains(e),
    ensures
        spec_model(us, h).edges.contains(e),
{
    lemma_unit_edge_present(us, i, e);
    let k = choose |k: int|
        0 <= k < units_edges(us).len() && units_edges(us)[k] == e;
    assert(spec_model(us, h).edges[backbone_edges().len() + k] == e);
}

/// Every node contributed by the unit at position `i` stands in the model.
pub proof fn lemma_unit_node_present(us: Seq<UnitView>, i: int, nv: NodeView)
    requires
        0 <= i < us.len(),
        unit_nodes(us[i], i).contains(nv),
    ensures
        units_nodes(us).contains(nv),
    decreases us.len(),
{
    if i == us.len() - 1 {
        let k = choose |k: int|
            0 <= k < unit_nodes(us[i], i).len() && unit_nodes(us[i], i)[k] == nv;
        assert(units_nodes(us)[units_nodes(us.drop_last()).len() + k] == nv);
    } else {
        lemma_unit_node_present(us.drop_last(), i, nv);
        let k = choose |k: int|
            0 <= k < units_nodes(us.drop_last()).len() && units_nodes(us.drop_last())[k] == nv;
        assert(units_nodes(us)[k] == nv);
    }
}

/// Every node contributed by a unit stands in the built model.
pub proof fn lemma_model_node_present(us: Seq<UnitView>, h: int, i: int, nv: NodeView)
    requires
        0 <= i < us.len(),
        unit_nodes(us[i], i).contains(nv),
    ensures
        spec_model(us, h).nodes.contains(nv),
{
    lemma_unit_node_present(us, i, nv);
    let k = choose |k: int|
        0 <= k < units_nodes(us).len() && units_nodes(us)[k] == nv;
    assert(spec_model(us, h).nodes[backbone_nodes().len() + k] == nv);
}

/// Periphery nodes are unit-scoped: two units with periphery-kind tops
/// get distinct periphery nodes even when both tops have the same kind,
/// and each of the two periphery nodes connects by its own edge to the
/// single shared base-layer node.
pub proof fn lemma_periphery_distinct(
    us: Seq<UnitView>,
    h: int,
    i: int,
    j: int,
    ki: CategoryKind,
    kj: CategoryKind,
    bi: CategoryKind,
    bj: CategoryKind,
)
    requires
        us.len() <= usize::MAX,
        0 <= i < us.len(),
        0 <= j < us.len(),
        i != j,
        periphery_kind_of(us[i]) == Some(ki),
        periphery_kind_of(us[j]) == Some(kj),
        ki.spec_periphery_base() == Some(bi),
        kj.spec_periphery_base() == Some(bj),
    ensures
        NodeId::Periphery(ki, i as usize) != NodeId::Periphery(kj, j as usize),
        spec_model(us, h).nodes.contains(
            (NodeView { id: NodeId::Periphery(ki, i as usize), label: "Periphery"@, main: false }),
        ),
        spec_model(us, h).nodes.contains(
            (NodeView { id: NodeId::Periphery(kj, j as usize), label: "Periphery"@, main: false }),
        ),
        spec_model(us, h).edges.contains(
            (EdgeView {
                points: seq![NodeId::Periphery(ki, i as usize), NodeId::TopLayer(bi)],
                dotted: false,
                invisible: false,
                arrowless: false,
            }),
        ),
        spec_model(us, h).edges.contains(
            (EdgeView {
                points: seq![NodeId::Periphery(kj, j as usize), NodeId::TopLayer(bj)],
                dotted: false,
                invisible: false,
                arrowless: false,
            }),
        ),
{
    let ei = EdgeView {
        points: seq![NodeId::Periphery(ki, i as usize), NodeId::TopLayer(bi)],
        dotted: false,
        invisible: false,
        arrowless: false,
    };
    let ej = EdgeView {
        points: seq![NodeId::Periphery(kj, j as usize), NodeId::TopLayer(bj)],
        dotted: false,
        invisible: false,
        arrowless: false,
    };
    assert(unit_edges(us[i], i)[1] == ei);
    assert(unit_edges(us[i], i).contains(ei));
    lemma_model_edge_present(us, h, i, ei);
    assert(unit_edges(us[j], j)[1] == ej);
    assert(unit_edges(us[j], j).contains(ej));
    lemma_model_edge_present(us, h, j, ej);
    let ni = NodeView { id: NodeId::Periphery(ki, i as usize), label: "Periphery"@, main: false };
    let nj = NodeView { id: NodeId::Periphery(kj, j as usize), label: "Periphery"@, main: false };
    assert(unit_nodes(us[i], i)[1] == ni);
    assert(unit_nodes(us[i], i).contains(ni));
    lemma_model_node_present(us, h, i, ni);
    assert(unit_nodes(us[j], j)[1] == nj);
    assert(unit_nodes(us[j], j).contains(nj));
    lemma_model_node_present(us, h, j, nj);
}

/// Whether the unit carries a `Pred`-kind top attachment.
pub fn unit_is_head(u: &Unit) -> (r: bool)
    ensures
        r == is_head(u@),
{
    match &u.top {
        Some(t) => match t.kind {
            CategoryKind::Pred => true,
            _ => false,
        },
        None => false,
    }
}

fn push_node(nodes: &mut Vec<Node>, id: NodeId, label: String, main: bool)
    ensures
        node_views(final(nodes)@) == node_views(old(nodes)@).push(
            (NodeView { id: id, label: label@, main: main }),
        ),
{
    let ghost l = label@;
    nodes.push(Node { id, label, main });
    proof {
        assert(node_views(nodes@) =~= node_views(old(nodes)@).push(
            NodeView { id: id, label: l, main: main },
        ));
    }
}

fn push_edge(edges: &mut Vec<Edge>, e: Edge)
    ensures
        edge_views(final(edges)@) == edge_views(old(edges)@).push(e@),
{
    let ghost ev = e@;
    edges.push(e);
    proof {
        assert(edge_views(edges@) =~= edge_views(old(edges)@).push(ev));
    }
}

fn push_rank(ranks: &mut Vec<Vec<NodeId>>, r: Vec<NodeId>)
    ensures
        rank_views(final(ranks)@) == rank_views(old(ranks)@).push(r@),
{
    let ghost rv = r@;
    ranks.push(r);
    proof {
        assert(rank_views(ranks@) =~= rank_views(old(ranks)@).push(rv));
    }
}

fn pair(a: NodeId, b: NodeId) -> (v: Vec<NodeId>)
    ensures
        v@ == seq![a, b],
{
    let mut v: Vec<NodeId> = Vec::new();
    v.push(a);
    v.push(b);
    proof {
        assert(v@ =~= seq![a, b]);
    }
    v
}

fn triple(a: NodeId, b: NodeId, c: NodeId) -> (v: Vec<NodeId>)
    ensures
        v@ == seq![a, b, c],
{
    let mut v: Vec<NodeId> = Vec::new();
    v.push(a);
    v.push(b);
    v.push(c);
    proof {
        assert(v@ =~= seq![a, b, c]);
    }
    v
}

fn edge_new(points: Vec<NodeId>, dotted: bool, invisible: bool, arrowless: bool) -> (e: Edge)
    ensures
        e@ == (EdgeView { points: points@, dotted: dotted, invisible: invisible, arrowless: arrowless }),
{
    Edge { points, dotted, invisible, arrowless }
}

fn emit_top(
    nodes: &mut Vec<Node>,
    edges: &mut Vec<Edge>,
    ranks: &mut Vec<Vec<NodeId>>,
    t: &TopAttachment,
    i: usize,
)
    ensures
        node_views(final(nodes)@) == node_views(old(nodes)@) + top_nodes(Some(t@), i as int),
        edge_views(final(edges)@) == edge_views(old(edges)@) + top_edges(Some(t@), i as int),
        rank_views(final(ranks)@) == rank_views(old(ranks)@) + top_ranks(Some(t@), i as int),
{
    match t.kind {
        CategoryKind::Pred => {
            push_node(&mut *nodes, NodeId::CategoryBot(i), t.category_label.clone(), true);
            push_node(&mut *nodes, NodeId::Category(i), t.category_label.clone(), true);
        },
        _ => {
            match t.kind.periphery_base() {
                Some(base) => {
                    let pts = triple(
                        NodeId::Terminal(i),
                        NodeId::Category(i),
                        NodeId::Periphery(t.kind, i),
                    );
                    push_edge(&mut *edges, edge_new(pts, false, false, true));
                    push_node(&mut *nodes, NodeId::Category(i), t.category_label.clone(), false);
                    push_node(
                        &mut *nodes,
                        NodeId::Periphery(t.kind, i),
                        "Periphery".to_owned(),
                        false,
                    );
                    let pts2 = pair(NodeId::Periphery(t.kind, i), NodeId::TopLayer(base));
                    push_edge(&mut *edges, edge_new(pts2, false, false, false));
                    let grp = pair(NodeId::TopLayer(base), NodeId::Periphery(t.kind, i));
                    push_rank(&mut *ranks, grp);
                },
                None => {
                    let pts = triple(
                        NodeId::Terminal(i),
                        NodeId::Category(i),
                        NodeId::TopLayer(t.kind),
                    );
                    push_edge(&mut *edges, edge_new(pts, false, false, true));
                    push_node(&mut *nodes, NodeId::Category(i), t.category_label.clone(), false);
                },
            }
        },
    }
    proof {
        assert(node_views(nodes@) =~~= node_views(old(nodes)@) + top_nodes(Some(t@), i as int));
        assert(edge_views(edges@) =~~= edge_views(old(edges)@) + top_edges(Some(t@), i as int));
        assert(rank_views(ranks@) =~~= rank_views(old(ranks)@) + top_ranks(Some(t@), i as int));
    }
}

fn emit_bottom(
    nodes: &mut Vec<Node>,
    edges: &mut Vec<Edge>,
    ranks: &mut Vec<Vec<NodeId>>,
    b: &BottomAttachment,
    i: usize,
    j: usize,
)
    ensures
        node_views(final(nodes)@) == node_views(old(nodes)@).push(
            (NodeView { id: NodeId::Operator(i, j), label: b.operator_label@, main: false }),
        ),
        edge_views(final(edges)@) == edge_views(old(edges)@) + op_edges(b@, i as int, j as int),
        rank_views(final(ranks)@) == rank_views(old(ranks)@).push(
            seq![NodeId::BotLayer(b.kind), NodeId::Operator(i, j)],
        ),
{
    push_node(&mut *nodes, NodeId::Operator(i, j), b.operator_label.clone(), false);
    let pts = pair(NodeId::Terminal(i), NodeId::Operator(i, j));
    push_edge(&mut *edges, edge_new(pts, true, false, true));
    let pts2 = pair(NodeId::Operator(i, j), NodeId::BotLayer(b.kind));
    push_edge(&mut *edges, edge_new(pts2, false, false, false));
    let grp = pair(NodeId::BotLayer(b.kind), NodeId::Operator(i, j));
    push_rank(&mut *ranks, grp);
    proof {
        assert(edge_views(edges@) =~~= edge_views(old(edges)@) + op_edges(b@, i as int, j as int));
    }
}

fn emit_unit(
    nodes: &mut Vec<Node>,
    edges: &mut Vec<Edge>,
    ranks: &mut Vec<Vec<NodeId>>,
    unit: &Unit,
    i: usize,
)
    ensures
        node_views(final(nodes)@) == node_views(old(nodes)@) + unit_nodes(unit@, i as int),
        edge_views(final(edges)@) == edge_views(old(edges)@) + unit_edges(unit@, i as int),
        rank_views(final(ranks)@) == rank_views(old(ranks)@) + unit_ranks(unit@, i as int),
{
    let ghost u = unit@;
    if let Some(t) = &unit.top {
        emit_top(&mut *nodes, &mut *edges, &mut *ranks, t, i);
    }
    proof {
        assert(node_views(nodes@) =~~= node_views(old(nodes)@) + top_nodes(u.top, i as int));
        assert(edge_views(edges@) =~~= edge_views(old(edges)@) + top_edges(u.top, i as int));
        assert(rank_views(ranks@) =~~= rank_views(old(ranks)@) + top_ranks(u.top, i as int));
    }

    let ghost nodes_mid = node_views(nodes@);
    let ghost edges_mid = edge_views(edges@);
    let ghost ranks_mid = rank_views(ranks@);
    if let Some(bs) = &unit.bottoms {
        let ghost bsv = bottoms_of(u);
        let m: usize = bs.len();
        let mut j: usize = 0;
        while j < m
            invariant
                j <= m,
                m == bs@.len(),
                bsv == bs@.map_values(|b: BottomAttachment| b@),
                node_views(nodes@) == nodes_mid + ops_nodes(bsv.take(j as int), i as int),
                edge_views(edges@) == edges_mid + ops_edges(bsv.take(j as int), i as int),
                rank_views(ranks@) == ranks_mid + ops_ranks(bsv.take(j as int), i as int),
            decreases m - j,
        {
            proof {
                assert(bsv.take(j as int + 1).drop_last() =~= bsv.take(j as int));
                assert(bsv[j as int] == bs@[j as int]@);
            }
            emit_bottom(&mut *nodes, &mut *edges, &mut *ranks, &bs[j], i, j);
            proof {
                assert(node_views(nodes@) =~~= nodes_mid + ops_nodes(
                    bsv.take(j as int + 1),
                    i as int,
                ));
                assert(edge_views(edges@) =~~= edges_mid + ops_edges(
                    bsv.take(j as int + 1),
                    i as int,
                ));
                assert(rank_views(ranks@) =~~= ranks_mid + ops_ranks(
                    bsv.take(j as int + 1),
                    i as int,
                ));
            }
            j = j + 1;
        }
        proof {
            assert(bsv.take(m as int) =~= bsv);
        }
    }
    proof {
        assert(node_views(nodes@) =~~= nodes_mid + ops_nodes(bottoms_of(u), i as int));
        assert(edge_views(edges@) =~~= edges_mid + ops_edges(bottoms_of(u), i as int));
        assert(rank_views(ranks@) =~~= ranks_mid + ops_ranks(bottoms_of(u), i as int));
    }

    let main_terminal = unit_is_head(unit);
    push_node(&mut *nodes, NodeId::Terminal(i), unit.surface_label.clone(), main_terminal);
    proof {
        assert(node_views(nodes@) =~~= node_views(old(nodes)@) + unit_nodes(u, i as int));
        assert(edge_views(edges@) =~~= edge_views(old(edges)@) + unit_edges(u, i as int));
        assert(rank_views(ranks@) =~~= rank_views(old(ranks)@) + unit_ranks(u, i as int));
    }
}

/// Builds the graph model for the unit sequence.
///
/// Fails with `MissingHead` when no unit has a `Pred`-kind top and with
/// `MultipleHeads` when more than one does; with exactly one head the
/// result is precisely the model that `spec_model` describes, built
/// around the head's position.
pub fn build(units: &Vec<Unit>) -> (r: Result<GraphModel, BuildError>)
    ensures
        r is Ok <==> head_count(unit_views(units@)) == 1,
        r == Err::<GraphModel, BuildError>(BuildError::MissingHead) <==> head_count(
            unit_views(units@),
        ) == 0,
        r == Err::<GraphModel, BuildError>(BuildError::MultipleHeads) <==> head_count(
            unit_views(units@),
        ) >= 2,
        r matches Ok(m) ==> exists |h: int|
            0 <= h < units@.len() && is_head(unit_views(units@)[h]) && m@ == #[trigger] spec_model(
                unit_views(units@),
                h,
            ),
{
    let ghost vs = unit_views(units@);
    let n: usize = units.len();

    // Locate the single head before any emission, so that no partial
    // model is ever observable.
    let mut count: usize = 0;
    let mut head: usize = 0;
    let mut i: usize = 0;
    while i < n
        invariant
            i <= n,
            n == units@.len(),
            vs == unit_views(units@),
            count as nat == head_count(vs.take(i as int)),
            count <= i,
            count >= 1 ==> head < i && is_head(vs[head as int]),
        decreases n - i,
    {
        proof {
            assert(vs.take(i as int + 1).drop_last() =~= vs.take(i as int));
            assert(vs[i as int] == units@[i as int]@);
        }
        if unit_is_head(&units[i]) {
            if count == 0 {
                head = i;
            }
            count = count + 1;
        }
        i = i + 1;
    }
    proof {
        assert(vs.take(n as int) =~= vs);
    }
    if count == 0 {
        return Err(BuildError::MissingHead);
    }
    if count > 1 {
        return Err(BuildError::MultipleHeads);
    }

    let mut nodes: Vec<Node> = Vec::new();
    let mut edges: Vec<Edge> = Vec::new();
    let mut ranks: Vec<Vec<NodeId>> = Vec::new();

    // The ten fixed backbone nodes.
    push_node(&mut nodes, NodeId::TopLayer(CategoryKind::Sentence), CategoryKind::Sentence.name(), true);
    push_node(&mut nodes, NodeId::TopLayer(CategoryKind::Clause), CategoryKind::Clause.name(), true);
    push_node(&mut nodes, NodeId::TopLayer(CategoryKind::Core), CategoryKind::Core.name(), true);
    push_node(&mut nodes, NodeId::TopLayer(CategoryKind::Nuc), CategoryKind::Nuc.name(), true);
    push_node(&mut nodes, NodeId::TopLayer(CategoryKind::Pred), CategoryKind::Pred.name(), true);
    push_node(&mut nodes, NodeId::BotLayer(CategoryKind::Sentence), CategoryKind::Sentence.name(), true);
    push_node(&mut nodes, NodeId::BotLayer(CategoryKind::Clause), CategoryKind::Clause.name(), true);
    push_node(&mut nodes, NodeId::BotLayer(CategoryKind::Core), CategoryKind::Core.name(), true);
    push_node(&mut nodes, NodeId::BotLayer(CategoryKind::Nuc), CategoryKind::Nuc.name(), true);
    push_node(&mut nodes, NodeId::BotLayer(CategoryKind::Pred), CategoryKind::Pred.name(), true);
    proof {
        assert(node_views(nodes@) =~~= backbone_nodes());
    }

    // The two backbone chains.
    let mut upper: Vec<NodeId> = Vec::new();
    upper.push(NodeId::TopLayer(CategoryKind::Sentence));
    upper.push(NodeId::TopLayer(CategoryKind::Clause));
    upper.push(NodeId::TopLayer(CategoryKind::Core));
    upper.push(NodeId::TopLayer(CategoryKind::Nuc));
    upper.push(NodeId::TopLayer(CategoryKind::Pred));
    proof {
        assert(upper@ =~= backbone_layers().map_values(|k: CategoryKind| NodeId::TopLayer(k)));
    }
    push_edge(&mut edges, edge_new(upper, false, false, true));
    let mut lower: Vec<NodeId> = Vec::new();
    lower.push(NodeId::BotLayer(CategoryKind::Pred));
    lower.push(NodeId::BotLayer(CategoryKind::Nuc));
    lower.push(NodeId::BotLayer(CategoryKind::Core));
    lower.push(NodeId::BotLayer(CategoryKind::Clause));
    lower.push(NodeId::BotLayer(CategoryKind::Sentence));
    proof {
        assert(lower@ =~= backbone_layers_mirrored().map_values(
            |k: CategoryKind| NodeId::BotLayer(k),
        ));
    }
    push_edge(&mut edges, edge_new(lower, false, false, true));
    proof {
        assert(edge_views(edges@) =~~= backbone_edges());
    }

    // One pass over the units.
    let mut i: usize = 0;
    while i < n
        invariant
            i <= n,
            n == units@.len(),
            vs == unit_views(units@),
            node_views(nodes@) == backbone_nodes() + units_nodes(vs.take(i as int)),
            edge_views(edges@) == backbone_edges() + units_edges(vs.take(i as int)),
            rank_views(ranks@) == units_ranks(vs.take(i as int)),
        decreases n - i,
    {
        proof {
            assert(vs[i as int] == units@[i as int]@);
        }
        emit_unit(&mut nodes, &mut edges, &mut ranks, &units[i], i);
        proof {
            assert(vs.take(i as int + 1).drop_last() =~= vs.take(i as int));
            assert(node_views(nodes@) =~~= backbone_nodes() + units_nodes(vs.take(i as int + 1)));
            assert(edge_views(edges@) =~~= backbone_edges() + units_edges(vs.take(i as int + 1)));
            assert(rank_views(ranks@) =~~= units_ranks(vs.take(i as int + 1)));
        }
        i = i + 1;
    }
    proof {
        assert(vs.take(n as int) =~= vs);
    }

    // The central spine through the head.
    let mut spine: Vec<NodeId> = Vec::new();
    spine.push(NodeId::TopLayer(CategoryKind::Sentence));
    spine.push(NodeId::TopLayer(CategoryKind::Clause));
    spine.push(NodeId::TopLayer(CategoryKind::Core));
    spine.push(NodeId::TopLayer(CategoryKind::Nuc));
    spine.push(NodeId::TopLayer(CategoryKind::Pred));
    spine.push(NodeId::Category(head));
    spine.push(NodeId::Terminal(head));
    spine.push(NodeId::CategoryBot(head));
    spine.push(NodeId::BotLayer(CategoryKind::Pred));
    spine.push(NodeId::BotLayer(CategoryKind::Nuc));
    spine.push(NodeId::BotLayer(CategoryKind::Core));
    spine.push(NodeId::BotLayer(CategoryKind::Clause));
    spine.push(NodeId::BotLayer(CategoryKind::Sentence));
    proof {
        assert(spine@ =~= spine_points(head as int));
    }
    push_edge(&mut edges, edge_new(spine, false, false, true));

    // All terminals on one rank, chained invisibly in unit order.
    let mut chain: Vec<NodeId> = Vec::new();
    let mut trank: Vec<NodeId> = Vec::new();
    let mut k: usize = 0;
    while k < n
        invariant
            k <= n,
            chain@ == terminal_rank(k as int),
            trank@ == terminal_rank(k as int),
        decreases n - k,
    {
        chain.push(NodeId::Terminal(k));
        trank.push(NodeId::Terminal(k));
        proof {
            assert(chain@ =~= terminal_rank(k as int + 1));
            assert(trank@ =~= terminal_rank(k as int + 1));
        }
        k = k + 1;
    }
    push_edge(&mut edges, edge_new(chain, false, true, false));
    push_rank(&mut ranks, trank);

    // All category nodes on one rank, in unit order.
    let mut crank: Vec<NodeId> = Vec::new();
    let mut k: usize = 0;
    while k < n
        invariant
            k <= n,
            n == units@.len(),
            vs == unit_views(units@),
            crank@ == category_rank(vs.take(k as int)),
        decreases n - k,
    {
        proof {
            assert(vs.take(k as int + 1).drop_last() =~= vs.take(k as int));
            assert(vs[k as int] == units@[k as int]@);
        }
        if units[k].top.is_some() {
            crank.push(NodeId::Category(k));
        }
        proof {
            assert(crank@ =~= category_rank(vs.take(k as int + 1)));
        }
        k = k + 1;
    }
    proof {
        assert(vs.take(n as int) =~= vs);
    }
    push_rank(&mut ranks, crank);

    let model = GraphModel { nodes, edges, ranks };
    proof {
        assert(model@ =~~= spec_model(vs, head as int));
    }
    Ok(model)
}

} // verus!
