use graph_state::labels::decimal_string;
use graph_state::labels::make_drawn_edge_label;
use graph_state::labels::make_link_label;
use graph_state::labels::make_node_label;
use graph_state::values::EdgePayload;
use graph_state::values::NodePayload;
use graph_state::values::Position;
use graph_state::values::Scalar;

#[test]
fn numbers_are_written_in_decimal() {
    assert_eq!(decimal_string(0), "0");
    assert_eq!(decimal_string(7), "7");
    assert_eq!(decimal_string(10), "10");
    assert_eq!(decimal_string(909), "909");
    assert_eq!(decimal_string(1234567890), "1234567890");
    assert_eq!(decimal_string(usize::MAX), usize::MAX.to_string());
}

#[test]
fn generated_nodes_are_labelled_by_their_number() {
    assert_eq!(make_node_label(0), "node0");
    assert_eq!(make_node_label(14), "node14");
    assert_ne!(make_node_label(1), make_node_label(10));
}

#[test]
fn edge_labels_name_both_ends() {
    assert_eq!(make_drawn_edge_label(3, 12), "边 3-12");
    assert_eq!(make_link_label(&"A".to_string(), &"B".to_string()), "边: A->B");
}

#[test]
fn scalars_keep_their_bits() {
    assert_eq!(Scalar::from_bits(1.5f32.to_bits()).to_bits(), 1.5f32.to_bits());
    assert_eq!(f32::from_bits(Scalar::from_bits((-0.25f32).to_bits()).to_bits()), -0.25);
    assert_eq!(Scalar::default().to_bits(), 0.0f32.to_bits());
    let p = Position::from_bits(2.0f32.to_bits(), 3.0f32.to_bits());
    assert_eq!(f32::from_bits(p.x.to_bits()), 2.0);
    assert_eq!(f32::from_bits(p.y.to_bits()), 3.0);
    assert_eq!(Position::default(), Position::from_bits(0, 0));
}

#[test]
fn payloads_are_copied_whole() {
    let node = NodePayload { label: "n".to_string(), weight: Scalar::from_bits(5) };
    let copy = node.clone();
    assert_eq!(copy.label, "n");
    assert_eq!(copy.weight, Scalar::from_bits(5));
    let edge = EdgePayload { label: "e".to_string(), weight: Scalar::from_bits(6) };
    let copy = edge.clone();
    assert_eq!(copy.label, "e");
    assert_eq!(copy.weight, Scalar::from_bits(6));
    assert_eq!(NodePayload::default().label, "");
    assert_eq!(EdgePayload::default().weight, Scalar::from_bits(0));
}
