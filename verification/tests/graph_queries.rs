use datagraph::datatypes::attributes::Attributes;
use datagraph::datatypes::value::{render_host, HostObject};
use datagraph::graph::edge::{convert_host_to_edge_index, EdgeConverter, EdgeIndex};
use datagraph::graph::DataGraph;
use datagraph::{AttributeKey, AttributeValue, GILHashMap, GraphError, PyUsize};

#[test]
fn remove_node_cascades_two_incident_edges() {
    let mut g = DataGraph::new();
    let mut attrs = Attributes::new();
    attrs.insert(AttributeKey::Str("x".to_owned()), AttributeValue::Int64(7));
    g.add_node(AttributeKey::UInt8(1), attrs).unwrap();
    g.add_node(AttributeKey::UInt8(2), Attributes::new()).unwrap();
    g.add_node(AttributeKey::UInt8(3), Attributes::new()).unwrap();
    let e1 = g
        .add_edge(AttributeKey::UInt8(1), AttributeKey::UInt8(2), Attributes::new())
        .unwrap();
    let e2 = g
        .add_edge(AttributeKey::UInt8(2), AttributeKey::UInt8(1), Attributes::new())
        .unwrap();
    let e3 = g
        .add_edge(AttributeKey::UInt8(2), AttributeKey::UInt8(3), Attributes::new())
        .unwrap();
    assert_eq!(g.edge_count(), 3);
    let removed = g.remove_node(AttributeKey::UInt8(1)).unwrap();
    assert!(matches!(
        removed.get(&AttributeKey::Str("x".to_owned())),
        Some(AttributeValue::Int64(7))
    ));
    assert_eq!(g.edge_count(), 1);
    assert!(!g.contains_edge(e1));
    assert!(!g.contains_edge(e2));
    assert!(g.contains_edge(e3));
    let ids = g.edge_indices();
    assert_eq!(ids, vec![e3]);
    assert_eq!(g.node_count(), 2);
    assert!(matches!(
        g.remove_node(AttributeKey::UInt8(1)),
        Err(GraphError::NodeNotFound(AttributeKey::UInt8(1)))
    ));
}

#[test]
fn edges_connecting_is_direction_sensitive_set() {
    let mut g = DataGraph::new();
    let a = AttributeKey::Str("a".to_owned());
    let b = AttributeKey::Str("b".to_owned());
    g.add_node(a.clone(), Attributes::new()).unwrap();
    g.add_node(b.clone(), Attributes::new()).unwrap();
    let e1 = g.add_edge(a.clone(), b.clone(), Attributes::new()).unwrap();
    let e2 = g.add_edge(a.clone(), b.clone(), Attributes::new()).unwrap();
    let e3 = g.add_edge(a.clone(), b.clone(), Attributes::new()).unwrap();
    let forward = g.edges_connecting(a.clone(), b.clone()).unwrap();
    assert_eq!(forward.len(), 3);
    assert!(forward.contains(&e1) && forward.contains(&e2) && forward.contains(&e3));
    let reverse = g.edges_connecting(b.clone(), a.clone()).unwrap();
    assert!(reverse.is_empty());
    assert!(matches!(
        g.edges_connecting(AttributeKey::UInt8(9), b.clone()),
        Err(GraphError::NodeNotFound(AttributeKey::UInt8(9)))
    ));
}

#[test]
fn incidence_queries_split_by_direction() {
    let mut g = DataGraph::new();
    g.add_node(AttributeKey::Int32(1), Attributes::new()).unwrap();
    g.add_node(AttributeKey::Int32(2), Attributes::new()).unwrap();
    let e = g
        .add_edge(AttributeKey::Int32(1), AttributeKey::Int32(2), Attributes::new())
        .unwrap();
    assert_eq!(g.outgoing_edge_indices(AttributeKey::Int32(1)).unwrap(), vec![e]);
    assert!(g.incoming_edge_indices(AttributeKey::Int32(1)).unwrap().is_empty());
    assert_eq!(g.incoming_edge_indices(AttributeKey::Int32(2)).unwrap(), vec![e]);
    assert!(matches!(
        g.outgoing_edge_indices(AttributeKey::Int32(5)),
        Err(GraphError::NodeNotFound(AttributeKey::Int32(5)))
    ));
}

#[test]
fn edge_index_conversion_follows_priority_and_renders_errors() {
    let mut lut: GILHashMap<EdgeConverter> = GILHashMap::new();
    assert_eq!(
        convert_host_to_edge_index(&mut lut, &HostObject::NativeInt(7)).unwrap(),
        EdgeIndex(7)
    );
    assert_eq!(
        convert_host_to_edge_index(&mut lut, &HostObject::NativeBool(true)).unwrap(),
        EdgeIndex(1)
    );
    assert_eq!(
        convert_host_to_edge_index(&mut lut, &HostObject::Usize(PyUsize::new(4))).unwrap(),
        EdgeIndex(4)
    );
    match convert_host_to_edge_index(&mut lut, &HostObject::NativeInt(-5)) {
        Err(GraphError::ConversionError(m)) => assert_eq!(m, "-5"),
        other => panic!("expected a conversion error, got {:?}", other),
    }
    match convert_host_to_edge_index(&mut lut, &HostObject::NativeStr("abc".to_owned())) {
        Err(GraphError::ConversionError(m)) => assert_eq!(m, "abc"),
        other => panic!("expected a conversion error, got {:?}", other),
    }
    match convert_host_to_edge_index(
        &mut lut,
        &HostObject::Unknown { type_identity: 40, rendering: "<thing>".to_owned() },
    ) {
        Err(GraphError::ConversionError(m)) => assert_eq!(m, "<thing>"),
        other => panic!("expected a conversion error, got {:?}", other),
    }
}

#[test]
fn host_rendering_spells_out_payloads() {
    assert_eq!(render_host(&HostObject::NativeInt(-12)), "-12");
    assert_eq!(render_host(&HostObject::NativeBool(false)), "false");
    assert_eq!(render_host(&HostObject::Null), "None");
    assert_eq!(render_host(&HostObject::Float64(3)), "float64 bits 3");
    assert_eq!(render_host(&HostObject::NativeStr("hi".to_owned())), "hi");
}
