use flatindex::Doc;
use flatindex::Error;
use flatindex::Key;
use flatindex::Node;
use flatindex::Value;
use flatindex::flatten::flatten;

fn key(k: &str) -> Key {
    Key::Str(k.to_owned())
}

fn entry(k: &str, n: Node) -> (Key, Node) {
    (key(k), n)
}

fn text(s: &str) -> Node {
    Node::Str(s.to_owned())
}

/// The record {a: 1, b: "Hello!", c: {a: false, b: ('a', 'b')}, d: [13, 42]}.
fn sample_record() -> Node {
    Node::Object(vec![
        entry("a", Node::Signed(1)),
        entry("b", text("Hello!")),
        entry(
            "c",
            Node::Object(vec![
                entry("a", Node::Bool(false)),
                entry("b", Node::Tuple(vec![Node::Char('a'), Node::Char('b')])),
            ]),
        ),
        entry("d", Node::List(vec![Node::Signed(13), Node::Signed(42)])),
    ])
}

#[test]
fn get_doc_fields() {
    let expected = vec![
        ("a".to_owned(), Value::Signed(1)),
        ("b".to_owned(), Value::Str("Hello!".into())),
        ("c.a".to_owned(), Value::Bool(false)),
        ("c.b._0".to_owned(), Value::Str("a".into())),
        ("c.b._1".to_owned(), Value::Str("b".into())),
        ("d".to_owned(), Value::Signed(13)),
        ("d".to_owned(), Value::Signed(42)),
    ];

    let doc = Doc::build(&sample_record()).expect("failed to get document");

    assert_eq!(&expected, doc.fields());
}

#[test]
fn flatten_twice_is_identical() {
    let first = flatten(&sample_record()).expect("failed to flatten");
    let second = flatten(&sample_record()).expect("failed to flatten");
    assert_eq!(first, second);
}

#[test]
fn root_scalar_gets_ordinal_path() {
    let fields = flatten(&Node::Signed(7)).expect("failed to flatten");
    assert_eq!(fields, vec![("_0".to_owned(), Value::Signed(7))]);
}

#[test]
fn unit_flattens_to_absent() {
    let fields = flatten(&Node::Object(vec![entry("x", Node::Unit)])).expect(
        "failed to flatten",
    );
    assert_eq!(fields, vec![("x".to_owned(), Value::Absent)]);
}

#[test]
fn float_flattens_to_bit_pattern() {
    let bits = 1.5f64.to_bits();
    let fields = flatten(&Node::Object(vec![entry("f", Node::Float(bits))])).expect(
        "failed to flatten",
    );
    assert_eq!(fields, vec![("f".to_owned(), Value::Float(bits))]);
}

#[test]
fn bytes_flatten_unchanged() {
    let fields = flatten(&Node::Object(vec![entry("raw", Node::Bytes(vec![1, 2, 3]))]))
        .expect("failed to flatten");
    assert_eq!(fields, vec![("raw".to_owned(), Value::Bytes(vec![1, 2, 3]))]);
}

#[test]
fn nested_lists_share_one_path() {
    let node = Node::Object(vec![entry(
        "d",
        Node::List(vec![
            Node::List(vec![Node::Signed(1), Node::Signed(2)]),
            Node::Signed(3),
        ]),
    )]);
    let fields = flatten(&node).expect("failed to flatten");
    // The inner list's elements repeat the shared path; leaving the inner
    // list closes that path segment, so a later sibling falls back to a
    // root ordinal.
    assert_eq!(
        fields,
        vec![
            ("d".to_owned(), Value::Signed(1)),
            ("d".to_owned(), Value::Signed(2)),
            ("_0".to_owned(), Value::Signed(3)),
        ]
    );
}

#[test]
fn numeric_and_bool_keys_render_as_segments() {
    let node = Node::Object(vec![
        (Key::Signed(-7), Node::Signed(1)),
        (Key::Unsigned(10), Node::Signed(2)),
        (Key::Bool(true), Node::Signed(3)),
        (Key::Char('z'), Node::Signed(4)),
    ]);
    let fields = flatten(&node).expect("failed to flatten");
    assert_eq!(
        fields,
        vec![
            ("-7".to_owned(), Value::Signed(1)),
            ("10".to_owned(), Value::Signed(2)),
            ("true".to_owned(), Value::Signed(3)),
            ("z".to_owned(), Value::Signed(4)),
        ]
    );
}

#[test]
fn data_carrying_variant_is_rejected() {
    let node = Node::Object(vec![entry(
        "v",
        Node::Variant("Wrapped".to_owned(), Box::new(Node::Signed(1))),
    )]);
    assert_eq!(flatten(&node).unwrap_err(), Error::UnsupportedVariant);
}

#[test]
fn invalid_map_key_is_rejected() {
    let node = Node::Object(vec![(Key::Invalid, Node::Signed(1))]);
    assert_eq!(flatten(&node).unwrap_err(), Error::InvalidKey);
}

#[test]
fn keyed_fields_inside_sequence_are_rejected() {
    let node = Node::Object(vec![entry(
        "d",
        Node::List(vec![Node::Object(vec![entry("a", Node::Signed(1))])]),
    )]);
    assert_eq!(flatten(&node).unwrap_err(), Error::UnsupportedShape);
}
