use datagraph::datatypes::attributes::Attributes;
use datagraph::{AttributeKey, AttributeValue, GraphError};
use datagraph::graph::DataGraph;

#[test]
fn add_node_then_read_attributes() {
    let mut g = DataGraph::new();
    let mut attrs = Attributes::new();
    attrs.insert(AttributeKey::Str("weight".to_owned()), AttributeValue::Int64(3));
    assert!(g.add_node(AttributeKey::UInt8(1), attrs).is_ok());
    assert_eq!(g.node_count(), 1);
    let mut copy = g.node_attributes(AttributeKey::UInt8(1)).unwrap();
    copy.insert(AttributeKey::Str("weight".to_owned()), AttributeValue::Int64(9));
    let fresh = g.node_attributes(AttributeKey::UInt8(1)).unwrap();
    assert!(matches!(
        fresh.get(&AttributeKey::Str("weight".to_owned())),
        Some(AttributeValue::Int64(3))
    ));
}

#[test]
fn duplicate_node_rejected_count_unchanged() {
    let mut g = DataGraph::new();
    assert!(g.add_node(AttributeKey::Int32(7), Attributes::new()).is_ok());
    let r = g.add_node(AttributeKey::Int32(7), Attributes::new());
    assert!(matches!(r, Err(GraphError::NodeAlreadyExists(_))));
    assert_eq!(g.node_count(), 1);
}

#[test]
fn add_edge_missing_source_leaves_edge_count() {
    let mut g = DataGraph::new();
    g.add_node(AttributeKey::Boolean(true), Attributes::new()).unwrap();
    let r = g.add_edge(
        AttributeKey::Usize(5),
        AttributeKey::Boolean(true),
        Attributes::new(),
    );
    assert!(matches!(r, Err(GraphError::NodeNotFound(AttributeKey::Usize(5)))));
    assert_eq!(g.edge_count(), 0);
}

#[test]
fn edge_indices_strictly_increase() {
    let mut g = DataGraph::new();
    g.add_node(AttributeKey::UInt8(1), Attributes::new()).unwrap();
    g.add_node(AttributeKey::UInt8(2), Attributes::new()).unwrap();
    let a = g
        .add_edge(AttributeKey::UInt8(1), AttributeKey::UInt8(2), Attributes::new())
        .unwrap();
    let b = g
        .add_edge(AttributeKey::UInt8(1), AttributeKey::UInt8(2), Attributes::new())
        .unwrap();
    assert!(a.0 < b.0);
    let removed = g.remove_edge(a).unwrap();
    assert_eq!(removed.len(), 0);
    let c = g
        .add_edge(AttributeKey::UInt8(2), AttributeKey::UInt8(1), Attributes::new())
        .unwrap();
    assert!(b.0 < c.0);
}

#[test]
fn key_widen_narrow_round_trip() {
    let k = AttributeKey::Str("id".to_owned());
    let v = k.clone().into_value();
    let back = AttributeKey::try_from_value(v).unwrap();
    assert_eq!(back, k);
    assert!(matches!(
        AttributeKey::try_from_value(AttributeValue::Null),
        Err(GraphError::ConversionError(_))
    ));
    assert!(matches!(
        AttributeKey::try_from_value(AttributeValue::Float64(0)),
        Err(GraphError::ConversionError(_))
    ));
}
