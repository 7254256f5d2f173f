use flatindex::Doc;
use flatindex::Key;
use flatindex::Node;

fn entry(k: &str, n: Node) -> (Key, Node) {
    (Key::Str(k.to_owned()), n)
}

fn text(s: &str) -> Node {
    Node::Str(s.to_owned())
}

#[test]
fn docs_with_equivalent_fields_have_same_index() {
    let a = Doc::build(&Node::Object(vec![
        entry("a", Node::Signed(1)),
        entry("b", text("Some text")),
    ]))
    .expect("failed to get document");

    let b = Doc::build(&Node::Object(vec![
        entry("a", Node::Signed(2)),
        entry("b", text("Some other text")),
    ]))
    .expect("failed to get document");

    assert_eq!(a.index(), b.index());
}

#[test]
fn docs_with_different_fields_have_different_index() {
    let a = Doc::build(&Node::Object(vec![
        entry("a", Node::Signed(1)),
        entry("b", text("Some text")),
    ]))
    .expect("failed to get document");

    let b = Doc::build(&Node::Object(vec![
        entry("c", Node::Signed(2)),
        entry("d", text("Some other text")),
    ]))
    .expect("failed to get document");

    assert_ne!(a.index(), b.index());
}

#[test]
fn different_type_at_shared_path_changes_index() {
    let a = Doc::build(&Node::Object(vec![entry("a", Node::Signed(1))]))
        .expect("failed to get document");
    let b = Doc::build(&Node::Object(vec![entry("a", text("1"))]))
        .expect("failed to get document");
    assert_ne!(a.index(), b.index());
}

#[test]
fn repeated_path_count_changes_index() {
    let two = Doc::build(&Node::Object(vec![entry(
        "d",
        Node::List(vec![Node::Signed(1), Node::Signed(2)]),
    )]))
    .expect("failed to get document");
    let three = Doc::build(&Node::Object(vec![entry(
        "d",
        Node::List(vec![Node::Signed(1), Node::Signed(2), Node::Signed(3)]),
    )]))
    .expect("failed to get document");
    assert_ne!(two.index(), three.index());
}
