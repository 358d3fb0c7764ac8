use cyberweaver::node::{NodePayload, NodeType, Real64};
use cyberweaver::normalize::{normalize_node_type, normalize_shape_id};
use cyberweaver::validate::{validate_node_payload, ValidationError};

fn num(v: f64) -> Real64 {
    Real64 { bits: v.to_bits() }
}

fn payload(id: &str, node_type: &str) -> NodePayload {
    NodePayload {
        id: id.to_owned(),
        node_type: node_type.to_owned(),
        x: num(0.0),
        y: num(0.0),
        content: String::new(),
        width: None,
        height: None,
    }
}

#[test]
fn validate_payload_rejects_unknown_shape_types() {
    let payload = payload("shape:x", "draw");
    let result = validate_node_payload(&payload);
    assert!(result.is_err());
}

#[test]
fn unknown_type_error_names_the_type() {
    let result = validate_node_payload(&payload("shape:x", "draw"));
    match result {
        Err(ValidationError::UnsupportedType(given)) => assert_eq!(given, "draw"),
        other => panic!("unexpected {:?}", other),
    }
    let e = ValidationError::UnsupportedType("draw".to_owned());
    assert_eq!(e.message(), "unsupported node type: draw");
}

#[test]
fn shape_id_gets_prefix() {
    assert_eq!(normalize_shape_id("artifact-1"), "shape:artifact-1");
    assert_eq!(normalize_shape_id("  artifact-1 \n"), "shape:artifact-1");
    assert_eq!(normalize_shape_id("shape:artifact-2"), "shape:artifact-2");
    assert_eq!(normalize_shape_id(" shape:a "), "shape:a");
    assert_eq!(normalize_shape_id(""), "shape:");
    assert_eq!(normalize_shape_id("Shape:a"), "shape:Shape:a");
}

#[test]
fn node_type_is_a_closed_set() {
    assert_eq!(normalize_node_type("geo"), Some(NodeType::Geo));
    assert_eq!(normalize_node_type(" text "), Some(NodeType::Text));
    assert_eq!(normalize_node_type("note\t"), Some(NodeType::Note));
    assert_eq!(normalize_node_type("Geo"), None);
    assert_eq!(normalize_node_type("draw"), None);
    assert_eq!(normalize_node_type("   "), None);
    assert_eq!(normalize_node_type(""), None);
    assert_eq!(NodeType::Text.as_str(), "text");
}

#[test]
fn empty_id_is_rejected_first() {
    let result = validate_node_payload(&payload("   ", "draw"));
    assert!(matches!(result, Err(ValidationError::EmptyId)));
    assert_eq!(ValidationError::EmptyId.message(), "node.id must not be empty");
}

#[test]
fn non_finite_coordinates_are_rejected() {
    for bad in [f64::NAN, f64::INFINITY, f64::NEG_INFINITY] {
        let mut p = payload("a", "geo");
        p.x = num(bad);
        assert!(matches!(validate_node_payload(&p), Err(ValidationError::NonFiniteCoordinate)));
        let mut q = payload("a", "geo");
        q.y = num(bad);
        assert!(matches!(validate_node_payload(&q), Err(ValidationError::NonFiniteCoordinate)));
    }
    assert_eq!(
        ValidationError::NonFiniteCoordinate.message(),
        "node coordinates must be finite numbers"
    );
}

#[test]
fn width_must_be_positive_when_given() {
    for bad in [0.0, -0.0, -5.0, f64::NAN, f64::INFINITY] {
        let mut p = payload("a", "geo");
        p.width = Some(num(bad));
        assert!(matches!(validate_node_payload(&p), Err(ValidationError::InvalidWidth)));
    }
    let mut ok = payload("a", "geo");
    assert!(validate_node_payload(&ok).is_ok());
    ok.width = Some(num(200.0));
    assert!(validate_node_payload(&ok).is_ok());
    ok.width = Some(num(f64::MIN_POSITIVE / 4.0));
    assert!(validate_node_payload(&ok).is_ok());
}

#[test]
fn height_must_be_positive_when_given() {
    let mut p = payload("a", "note");
    p.height = Some(num(-1.5));
    assert!(matches!(validate_node_payload(&p), Err(ValidationError::InvalidHeight)));
    assert_eq!(
        ValidationError::InvalidHeight.message(),
        "node.height must be a positive finite number when provided"
    );
    p.height = Some(num(3.0));
    assert!(validate_node_payload(&p).is_ok());
}

#[test]
fn width_is_checked_before_height() {
    let mut p = payload("a", "text");
    p.width = Some(num(0.0));
    p.height = Some(num(0.0));
    assert!(matches!(validate_node_payload(&p), Err(ValidationError::InvalidWidth)));
    assert_eq!(
        ValidationError::InvalidWidth.message(),
        "node.width must be a positive finite number when provided"
    );
}

#[test]
fn real_bit_tests() {
    assert!(num(1.0).is_finite());
    assert!(num(-1.0).is_finite());
    assert!(!num(f64::NAN).is_finite());
    assert!(num(1.0).is_positive_finite());
    assert!(!num(-1.0).is_positive_finite());
    assert!(!num(0.0).is_positive_finite());
    assert!(!num(f64::INFINITY).is_positive_finite());
}
