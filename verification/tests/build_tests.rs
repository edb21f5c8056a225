use rrg_diagram::builder::{build, BuildError};
use rrg_diagram::model::{Edge, GraphModel, NodeId};
use rrg_diagram::record::{BottomAttachment, CategoryKind, TopAttachment, Unit};

fn unit(
    phon: &str,
    top: Option<(&str, CategoryKind)>,
    bots: Option<Vec<(&str, CategoryKind)>>,
) -> Unit {
    Unit {
        surface_label: phon.to_string(),
        top: top.map(|(pos, kind)| TopAttachment { category_label: pos.to_string(), kind }),
        bottoms: bots.map(|bs| {
            bs.into_iter()
                .map(|(op, kind)| BottomAttachment { operator_label: op.to_string(), kind })
                .collect()
        }),
    }
}

fn example_units() -> Vec<Unit> {
    vec![
        unit(
            "Will",
            None,
            Some(vec![("IF", CategoryKind::Clause), ("TNS", CategoryKind::Clause)]),
        ),
        unit("they", Some(("NP", CategoryKind::Core)), None),
        unit("have to", None, Some(vec![("MOD", CategoryKind::Core)])),
        unit("be", None, Some(vec![("ASP", CategoryKind::Nuc)])),
        unit(
            "leaving",
            Some(("V", CategoryKind::Pred)),
            Some(vec![("ASP", CategoryKind::Nuc)]),
        ),
    ]
}

fn spine_edge(m: &GraphModel) -> &Edge {
    &m.edges[m.edges.len() - 2]
}

#[test]
fn build_fails_without_head() {
    let units = vec![
        unit("they", Some(("NP", CategoryKind::Core)), None),
        unit("be", None, Some(vec![("ASP", CategoryKind::Nuc)])),
    ];
    assert_eq!(build(&units), Err(BuildError::MissingHead));
}

#[test]
fn build_fails_on_empty_input() {
    let units: Vec<Unit> = vec![];
    assert_eq!(build(&units), Err(BuildError::MissingHead));
}

#[test]
fn build_fails_with_two_heads() {
    let units = vec![
        unit("go", Some(("V", CategoryKind::Pred)), None),
        unit("run", Some(("V", CategoryKind::Pred)), None),
    ];
    assert_eq!(build(&units), Err(BuildError::MultipleHeads));
}

#[test]
fn build_fails_with_three_heads() {
    let units = vec![
        unit("a", Some(("V", CategoryKind::Pred)), None),
        unit("b", Some(("V", CategoryKind::Pred)), None),
        unit("c", Some(("V", CategoryKind::Pred)), None),
    ];
    assert_eq!(build(&units), Err(BuildError::MultipleHeads));
}

#[test]
fn central_spine_has_thirteen_points() {
    let units = vec![unit("leaving", Some(("V", CategoryKind::Pred)), None)];
    let m = build(&units).unwrap();
    let spine = spine_edge(&m);
    assert_eq!(spine.points.len(), 13);
    assert!(spine.arrowless);
    assert_eq!(
        spine.points,
        vec![
            NodeId::TopLayer(CategoryKind::Sentence),
            NodeId::TopLayer(CategoryKind::Clause),
            NodeId::TopLayer(CategoryKind::Core),
            NodeId::TopLayer(CategoryKind::Nuc),
            NodeId::TopLayer(CategoryKind::Pred),
            NodeId::Category(0),
            NodeId::Terminal(0),
            NodeId::CategoryBot(0),
            NodeId::BotLayer(CategoryKind::Pred),
            NodeId::BotLayer(CategoryKind::Nuc),
            NodeId::BotLayer(CategoryKind::Core),
            NodeId::BotLayer(CategoryKind::Clause),
            NodeId::BotLayer(CategoryKind::Sentence),
        ]
    );
}

#[test]
fn central_spine_runs_through_the_head() {
    let m = build(&example_units()).unwrap();
    let spine = spine_edge(&m);
    assert_eq!(spine.points.len(), 13);
    assert_eq!(spine.points[5], NodeId::Category(4));
    assert_eq!(spine.points[6], NodeId::Terminal(4));
    assert_eq!(spine.points[7], NodeId::CategoryBot(4));
}

#[test]
fn terminal_rank_lists_every_unit_in_order() {
    let m = build(&example_units()).unwrap();
    let terminals = &m.ranks[m.ranks.len() - 2];
    assert_eq!(
        *terminals,
        vec![
            NodeId::Terminal(0),
            NodeId::Terminal(1),
            NodeId::Terminal(2),
            NodeId::Terminal(3),
            NodeId::Terminal(4),
        ]
    );
}

#[test]
fn category_rank_lists_units_with_tops_in_order() {
    let m = build(&example_units()).unwrap();
    let categories = &m.ranks[m.ranks.len() - 1];
    assert_eq!(*categories, vec![NodeId::Category(1), NodeId::Category(4)]);
}

#[test]
fn periphery_nodes_stay_unit_scoped() {
    let units = vec![
        unit("yesterday", Some(("ADV", CategoryKind::CoreP)), None),
        unit("left", Some(("V", CategoryKind::Pred)), None),
        unit("quietly", Some(("ADV", CategoryKind::CoreP)), None),
    ];
    let m = build(&units).unwrap();
    let p0 = NodeId::Periphery(CategoryKind::CoreP, 0);
    let p2 = NodeId::Periphery(CategoryKind::CoreP, 2);
    assert_ne!(p0, p2);
    assert!(m.nodes.iter().any(|n| n.id == p0));
    assert!(m.nodes.iter().any(|n| n.id == p2));
    let base = NodeId::TopLayer(CategoryKind::Core);
    assert!(m.edges.iter().any(|e| e.points == vec![p0, base]));
    assert!(m.edges.iter().any(|e| e.points == vec![p2, base]));
    assert!(m.ranks.iter().any(|r| *r == vec![base, p0]));
    assert!(m.ranks.iter().any(|r| *r == vec![base, p2]));
}

#[test]
fn clause_periphery_connects_to_clause_layer() {
    let units = vec![
        unit("left", Some(("V", CategoryKind::Pred)), None),
        unit("because", Some(("PP", CategoryKind::ClauseP)), None),
    ];
    let m = build(&units).unwrap();
    let p = NodeId::Periphery(CategoryKind::ClauseP, 1);
    let base = NodeId::TopLayer(CategoryKind::Clause);
    assert!(m.edges.iter().any(|e| e.points == vec![p, base]));
    let chain = vec![NodeId::Terminal(1), NodeId::Category(1), p];
    assert!(m.edges.iter().any(|e| e.points == chain && e.arrowless));
}

#[test]
fn build_is_idempotent() {
    let units = example_units();
    let m1 = build(&units).unwrap();
    let m2 = build(&units).unwrap();
    assert_eq!(m1, m2);
}

#[test]
fn example_sentence_builds_as_described() {
    let m = build(&example_units()).unwrap();
    // The head is unit 4: its terminal and category node carry the spine
    // group tag.
    let head_terminal = m.nodes.iter().find(|n| n.id == NodeId::Terminal(4)).unwrap();
    assert!(head_terminal.main);
    assert_eq!(head_terminal.label, "leaving");
    let head_category = m.nodes.iter().find(|n| n.id == NodeId::Category(4)).unwrap();
    assert!(head_category.main);
    assert_eq!(head_category.label, "V");
    let mirror = m.nodes.iter().find(|n| n.id == NodeId::CategoryBot(4)).unwrap();
    assert!(mirror.main);
    assert_eq!(mirror.label, "V");
    // Unit 1's NP category is non-periphery: no periphery node or edge at
    // all in this model.
    assert!(!m.nodes.iter().any(|n| matches!(n.id, NodeId::Periphery(_, _))));
    assert!(!m
        .edges
        .iter()
        .any(|e| e.points.iter().any(|p| matches!(p, NodeId::Periphery(_, _)))));
    // It attaches straight to the shared Core layer node.
    let np_chain = vec![
        NodeId::Terminal(1),
        NodeId::Category(1),
        NodeId::TopLayer(CategoryKind::Core),
    ];
    assert!(m.edges.iter().any(|e| e.points == np_chain && e.arrowless));
    // Five operator nodes, one per bottom attachment.
    let operators: Vec<&NodeId> = m
        .nodes
        .iter()
        .map(|n| &n.id)
        .filter(|id| matches!(id, NodeId::Operator(_, _)))
        .collect();
    assert_eq!(operators.len(), 5);
    assert!(operators.contains(&&NodeId::Operator(0, 0)));
    assert!(operators.contains(&&NodeId::Operator(0, 1)));
    assert!(operators.contains(&&NodeId::Operator(2, 0)));
    assert!(operators.contains(&&NodeId::Operator(3, 0)));
    assert!(operators.contains(&&NodeId::Operator(4, 0)));
}

#[test]
fn operator_nodes_carry_labels_and_scope_edges() {
    let m = build(&example_units()).unwrap();
    let tns = m.nodes.iter().find(|n| n.id == NodeId::Operator(0, 1)).unwrap();
    assert_eq!(tns.label, "TNS");
    // Dotted arrowless edge from the terminal, plain edge into the lower
    // backbone at the scoped layer.
    let scope = vec![NodeId::Terminal(0), NodeId::Operator(0, 1)];
    assert!(m.edges.iter().any(|e| e.points == scope && e.dotted && e.arrowless));
    let layer = vec![
        NodeId::Operator(0, 1),
        NodeId::BotLayer(CategoryKind::Clause),
    ];
    assert!(m
        .edges
        .iter()
        .any(|e| e.points == layer && !e.dotted && !e.arrowless && !e.invisible));
    // The operator renders level with the layer it scopes.
    let grp = vec![
        NodeId::BotLayer(CategoryKind::Clause),
        NodeId::Operator(0, 1),
    ];
    assert!(m.ranks.iter().any(|r| *r == grp));
}

#[test]
fn backbone_has_ten_layer_nodes_and_two_chains() {
    let units = vec![unit("go", Some(("V", CategoryKind::Pred)), None)];
    let m = build(&units).unwrap();
    let layers = [
        CategoryKind::Sentence,
        CategoryKind::Clause,
        CategoryKind::Core,
        CategoryKind::Nuc,
        CategoryKind::Pred,
    ];
    for k in layers {
        let top = m.nodes.iter().find(|n| n.id == NodeId::TopLayer(k)).unwrap();
        assert!(top.main);
        assert_eq!(top.label, k.name());
        let bot = m.nodes.iter().find(|n| n.id == NodeId::BotLayer(k)).unwrap();
        assert!(bot.main);
        assert_eq!(bot.label, k.name());
    }
    let upper: Vec<NodeId> = layers.iter().map(|k| NodeId::TopLayer(*k)).collect();
    assert!(m.edges.iter().any(|e| e.points == upper && e.arrowless));
    let lower: Vec<NodeId> = layers.iter().rev().map(|k| NodeId::BotLayer(*k)).collect();
    assert!(m.edges.iter().any(|e| e.points == lower && e.arrowless));
}

#[test]
fn terminals_chain_invisibly_in_unit_order() {
    let m = build(&example_units()).unwrap();
    let chain = &m.edges[m.edges.len() - 1];
    assert!(chain.invisible);
    assert_eq!(
        chain.points,
        vec![
            NodeId::Terminal(0),
            NodeId::Terminal(1),
            NodeId::Terminal(2),
            NodeId::Terminal(3),
            NodeId::Terminal(4),
        ]
    );
}

#[test]
fn bare_unit_contributes_only_its_terminal() {
    let units = vec![
        unit("well", None, None),
        unit("go", Some(("V", CategoryKind::Pred)), None),
    ];
    let m = build(&units).unwrap();
    let of_unit_zero: Vec<&NodeId> = m
        .nodes
        .iter()
        .map(|n| &n.id)
        .filter(|id| {
            matches!(
                id,
                NodeId::Category(0)
                    | NodeId::Periphery(_, 0)
                    | NodeId::Operator(0, _)
                    | NodeId::CategoryBot(0)
            )
        })
        .collect();
    assert!(of_unit_zero.is_empty());
    let t = m.nodes.iter().find(|n| n.id == NodeId::Terminal(0)).unwrap();
    assert_eq!(t.label, "well");
    assert!(!t.main);
}

#[test]
fn periphery_node_is_labeled_periphery() {
    let units = vec![
        unit("yesterday", Some(("ADV", CategoryKind::CoreP)), None),
        unit("left", Some(("V", CategoryKind::Pred)), None),
    ];
    let m = build(&units).unwrap();
    let p = m
        .nodes
        .iter()
        .find(|n| n.id == NodeId::Periphery(CategoryKind::CoreP, 0))
        .unwrap();
    assert_eq!(p.label, "Periphery");
    assert!(!p.main);
}
