use flatindex::Doc;
use flatindex::Error;
use flatindex::Key;
use flatindex::Node;
use flatindex::Ty;
use flatindex::schema::Stored;
use flatindex::schema::materialize;

fn entry(k: &str, n: Node) -> (Key, Node) {
    (Key::Str(k.to_owned()), n)
}

fn text(s: &str) -> Node {
    Node::Str(s.to_owned())
}

#[test]
fn equivalent_shapes_build_identical_schemas() {
    let a = Doc::build(&Node::Object(vec![
        entry("a", Node::Signed(1)),
        entry("b", text("x")),
        entry("d", Node::List(vec![Node::Signed(1), Node::Signed(2)])),
    ]))
    .expect("failed to get document");
    let b = Doc::build(&Node::Object(vec![
        entry("a", Node::Signed(99)),
        entry("b", text("something else")),
        entry("d", Node::List(vec![Node::Signed(5), Node::Signed(6)])),
    ]))
    .expect("failed to get document");

    let sa = a.indexable().expect("failed to build schema").schema;
    let sb = b.indexable().expect("failed to build schema").schema;

    assert_eq!(sa.fields, sb.fields);
    assert_eq!(
        sa.fields,
        vec![
            ("a".to_owned(), Ty::Signed),
            ("b".to_owned(), Ty::Str),
            ("d".to_owned(), Ty::Signed),
        ]
    );
}

#[test]
fn conflicting_types_at_one_path_are_a_schema_conflict() {
    let doc = Doc::build(&Node::Object(vec![entry(
        "d",
        Node::List(vec![Node::Signed(1), text("two")]),
    )]))
    .expect("failed to get document");
    assert_eq!(doc.indexable().unwrap_err(), Error::SchemaConflict);
}

#[test]
fn materialized_values_use_storage_encodings() {
    let bits = 2.25f64.to_bits();
    let doc = Doc::build(&Node::Object(vec![
        entry("n", Node::Signed(-4)),
        entry("u", Node::Unsigned(9)),
        entry("f", Node::Float(bits)),
        entry("flag", Node::Bool(true)),
        entry("s", text("hi")),
        entry("raw", Node::Bytes(vec![0xde, 0xad])),
        entry("gone", Node::Unit),
    ]))
    .expect("failed to get document");

    let indexable = doc.indexable().expect("failed to materialize");

    assert_eq!(
        indexable.doc,
        vec![
            ("n".to_owned(), Stored::I64(-4)),
            ("u".to_owned(), Stored::U64(9)),
            ("f".to_owned(), Stored::U64(bits)),
            ("flag".to_owned(), Stored::Text("true".to_owned())),
            ("s".to_owned(), Stored::Text("hi".to_owned())),
            ("raw".to_owned(), Stored::Bytes(vec![0xde, 0xad])),
        ]
    );
    assert_eq!(indexable.index, doc.index());
}

#[test]
fn repeated_paths_materialize_repeated_values() {
    let doc = Doc::build(&Node::Object(vec![entry(
        "d",
        Node::List(vec![Node::Signed(13), Node::Signed(42)]),
    )]))
    .expect("failed to get document");
    let indexable = doc.indexable().expect("failed to materialize");
    assert_eq!(
        indexable.doc,
        vec![
            ("d".to_owned(), Stored::I64(13)),
            ("d".to_owned(), Stored::I64(42)),
        ]
    );
}

#[test]
fn absent_only_path_conflicts_with_typed_value() {
    let doc = Doc::build(&Node::Object(vec![entry(
        "d",
        Node::List(vec![Node::Unit, Node::Signed(1)]),
    )]))
    .expect("failed to get document");
    assert_eq!(doc.indexable().unwrap_err(), Error::SchemaConflict);
}

#[test]
fn materializing_against_a_foreign_schema_reports_the_missing_path() {
    let doc = Doc::build(&Node::Object(vec![entry("a", Node::Signed(1))]))
        .expect("failed to get document");
    let other = Doc::build(&Node::Object(vec![entry("b", text("x"))]))
        .expect("failed to get document");
    let schema = other.indexable().expect("failed to build schema").schema;
    assert_eq!(
        materialize(doc.fields(), &schema).unwrap_err(),
        Error::MissingField
    );
}
