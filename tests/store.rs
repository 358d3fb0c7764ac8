use cyberweaver::node::{Node, NodePayload, NodeType, Real64};
use cyberweaver::rows::{decode_row, decode_rows, DecodeError, RawRow};
use cyberweaver::schema::{column_migration, migration_plan};
use cyberweaver::store::{delete_sql, normalize_delete_ids, prepare_delete, prepare_upsert};
use cyberweaver::validate::ValidationError;

fn num(v: f64) -> Real64 {
    Real64 { bits: v.to_bits() }
}

fn payload(id: &str, node_type: &str, content: &str) -> NodePayload {
    NodePayload {
        id: id.to_owned(),
        node_type: node_type.to_owned(),
        x: num(0.0),
        y: num(0.0),
        content: content.to_owned(),
        width: None,
        height: None,
    }
}

/// The row that the table gives back for a written node.
fn row_of(n: &Node) -> RawRow {
    RawRow {
        id: Some(n.id.clone()),
        node_type: Some(n.node_type.as_str().to_owned()),
        x: Some(n.x),
        y: Some(n.y),
        content: Some(n.content.clone()),
        width: Some(n.width),
        height: Some(n.height),
    }
}

#[test]
fn upsert_and_get_nodes_roundtrip() {
    let written = prepare_upsert(&vec![NodePayload {
        id: "artifact-1".to_owned(),
        node_type: "text".to_owned(),
        x: num(12.0),
        y: num(34.0),
        content: "IOC discovered".to_owned(),
        width: Some(num(200.0)),
        height: None,
    }])
    .expect("upsert should succeed");

    let rows = decode_rows(written.iter().map(row_of).collect()).expect("query should succeed");

    assert_eq!(rows.len(), 1);
    assert_eq!(rows[0].id, "shape:artifact-1");
    assert_eq!(rows[0].node_type.as_str(), "text");
    assert_eq!(rows[0].content, "IOC discovered");
    assert_eq!(rows[0].width, Some(num(200.0)));
}

#[test]
fn delete_nodes_removes_rows() {
    let written = prepare_upsert(&vec![payload("shape:artifact-2", "note", "temporary")])
        .expect("upsert should succeed");

    let (sql, targets) =
        prepare_delete(vec!["artifact-2".to_owned()]).expect("delete should succeed");
    assert_eq!(sql, "DELETE FROM nodes WHERE id IN (?);");

    let remaining: Vec<RawRow> =
        written.iter().filter(|n| !targets.contains(&n.id)).map(row_of).collect();
    let rows = decode_rows(remaining).expect("query should succeed");
    assert!(rows.is_empty());
}

#[test]
fn batch_with_one_invalid_payload_writes_nothing() {
    let batch = vec![payload("a", "geo", "ok"), payload("b", "draw", "bad")];
    match prepare_upsert(&batch) {
        Err(ValidationError::UnsupportedType(given)) => assert_eq!(given, "draw"),
        other => panic!("unexpected {:?}", other.map(|v| v.len())),
    }
}

#[test]
fn first_invalid_payload_decides_the_error() {
    let mut wide = payload("c", "geo", "");
    wide.width = Some(num(-5.0));
    let batch = vec![payload("a", "geo", ""), wide, payload("", "geo", "")];
    assert!(matches!(prepare_upsert(&batch), Err(ValidationError::InvalidWidth)));
}

#[test]
fn empty_batches_are_no_ops() {
    assert_eq!(prepare_upsert(&vec![]).map(|v| v.len()).ok(), Some(0));
    assert!(prepare_delete(vec![]).is_none());
    assert!(prepare_delete(vec!["  ".to_owned(), String::new()]).is_none());
}

#[test]
fn upsert_keeps_batch_order_and_normalizes() {
    let batch = vec![
        payload(" b ", " note ", "first"),
        payload("shape:a", "geo", "second"),
        payload("b", "text", "third"),
    ];
    let rows = prepare_upsert(&batch).expect("valid batch");
    let ids: Vec<&str> = rows.iter().map(|n| n.id.as_str()).collect();
    assert_eq!(ids, vec!["shape:b", "shape:a", "shape:b"]);
    assert_eq!(rows[0].node_type, NodeType::Note);
    assert_eq!(rows[2].node_type, NodeType::Text);
    assert_eq!(rows[2].content, "third");
}

#[test]
fn delete_ids_are_trimmed_prefixed_and_deduplicated() {
    let ids = normalize_delete_ids(vec![
        "artifact-2".to_owned(),
        " shape:artifact-2 ".to_owned(),
        "".to_owned(),
        "   ".to_owned(),
        "b".to_owned(),
        "artifact-2".to_owned(),
    ]);
    assert_eq!(ids, vec!["shape:artifact-2".to_owned(), "shape:b".to_owned()]);
}

#[test]
fn delete_ids_come_out_ascending_whatever_the_input_order() {
    let forward = normalize_delete_ids(vec!["a".to_owned(), "b".to_owned(), "c".to_owned()]);
    let backward = normalize_delete_ids(vec![
        "c".to_owned(),
        "shape:b".to_owned(),
        "a".to_owned(),
        "c".to_owned(),
    ]);
    assert_eq!(forward, vec!["shape:a", "shape:b", "shape:c"]);
    assert_eq!(forward, backward);
    assert_eq!(normalize_delete_ids(forward.clone()), forward);
    let mixed = normalize_delete_ids(vec![
        "shape:\u{e9}".to_owned(),
        "shape:z".to_owned(),
        "shape:Z".to_owned(),
        "shape:".to_owned(),
        "shape:zz".to_owned(),
    ]);
    assert_eq!(mixed, vec!["shape:", "shape:Z", "shape:z", "shape:zz", "shape:\u{e9}"]);
    let (_, targets) = prepare_delete(vec!["y".to_owned(), "x".to_owned()]).expect("targets");
    assert_eq!(targets, vec!["shape:x", "shape:y"]);
}

#[test]
fn delete_statement_has_one_placeholder_per_id() {
    assert_eq!(delete_sql(1), "DELETE FROM nodes WHERE id IN (?);");
    assert_eq!(delete_sql(3), "DELETE FROM nodes WHERE id IN (?, ?, ?);");
    let (sql, targets) =
        prepare_delete(vec!["x".to_owned(), "y".to_owned(), "x".to_owned()]).expect("targets");
    assert_eq!(targets.len(), 2);
    assert_eq!(sql, "DELETE FROM nodes WHERE id IN (?, ?);");
}

#[test]
fn migration_adds_only_missing_columns() {
    let legacy: Vec<String> =
        ["id", "type", "x", "y", "content"].iter().map(|s| s.to_string()).collect();
    let plan = migration_plan(&legacy);
    assert_eq!(
        plan,
        vec![
            "ALTER TABLE nodes ADD COLUMN width REAL;".to_owned(),
            "ALTER TABLE nodes ADD COLUMN height REAL;".to_owned(),
            "ALTER TABLE nodes ADD COLUMN updated_at INTEGER NOT NULL DEFAULT 0;".to_owned(),
        ]
    );
    let mut partial = legacy.clone();
    partial.push("height".to_owned());
    assert_eq!(
        migration_plan(&partial),
        vec![
            "ALTER TABLE nodes ADD COLUMN width REAL;".to_owned(),
            "ALTER TABLE nodes ADD COLUMN updated_at INTEGER NOT NULL DEFAULT 0;".to_owned(),
        ]
    );
}

#[test]
fn migration_twice_is_a_no_op() {
    let mut cols: Vec<String> =
        ["id", "type", "x", "y", "content"].iter().map(|s| s.to_string()).collect();
    let first = migration_plan(&cols);
    assert_eq!(first.len(), 3);
    cols.extend(["width", "height", "updated_at"].iter().map(|s| s.to_string()));
    assert!(migration_plan(&cols).is_empty());
    assert_eq!(column_migration(&cols, "width", "REAL"), None);
    assert_eq!(
        column_migration(&cols, "depth", "REAL"),
        Some("ALTER TABLE nodes ADD COLUMN depth REAL;".to_owned())
    );
}

#[test]
fn row_decoding_reports_the_first_bad_column() {
    let n = prepare_upsert(&vec![payload("a", "geo", "c")]).expect("valid").remove(0);
    let mut row = row_of(&n);
    row.x = None;
    row.content = None;
    assert!(matches!(decode_row(&row), Err(DecodeError::X)));
    let mut row = row_of(&n);
    row.id = None;
    assert!(matches!(decode_row(&row), Err(DecodeError::Id)));
    let mut row = row_of(&n);
    row.height = None;
    assert!(matches!(decode_row(&row), Err(DecodeError::Height)));
}

#[test]
fn rows_of_other_kinds_are_left_out() {
    let batch = vec![payload("a", "geo", "1"), payload("b", "note", "2")];
    let nodes = prepare_upsert(&batch).expect("valid");
    let mut rows: Vec<RawRow> = nodes.iter().map(row_of).collect();
    let mut stray = row_of(&nodes[0]);
    stray.node_type = Some("draw".to_owned());
    rows.insert(1, stray);
    let listed = decode_rows(rows).expect("decodes");
    let ids: Vec<&str> = listed.iter().map(|n| n.id.as_str()).collect();
    assert_eq!(ids, vec!["shape:a", "shape:b"]);
    let mut bad: Vec<RawRow> = nodes.iter().map(row_of).collect();
    bad[1].width = None;
    assert!(matches!(decode_rows(bad), Err(DecodeError::Width)));
}
