use flatindex::Error;
use flatindex::Hit;
use flatindex::Indexer;
use flatindex::Key;
use flatindex::MultiIndexCollector;
use flatindex::Node;
use flatindex::Store;
use flatindex::search::resolve_hits;

use tantivy::collector::TopDocs;
use tantivy::query::QueryParser;

fn entry(k: &str, n: Node) -> (Key, Node) {
    (Key::Str(k.to_owned()), n)
}

fn text(s: &str) -> Node {
    Node::Str(s.to_owned())
}

/// Runs `query` against every registered index, merges all hits through the
/// shared bounded collector, and resolves the ranked hits into rendered
/// JSON documents.
fn search_all(store: &Store, query: &str, limit: usize) -> Vec<String> {
    let indexes = store.indexes();
    let mut collector = MultiIndexCollector::with_limit(limit);
    for (id, index) in indexes.iter() {
        let reader = index.reader().expect("failed to open reader");
        let searcher = reader.searcher();
        let parser = QueryParser::for_index(index, vec![]);
        let parsed = parser.parse_query(query).expect("failed to parse query");
        let top = searcher
            .search(&parsed, &TopDocs::with_limit(limit).order_by_score())
            .expect("failed to search");
        for (score, address) in top {
            collector.set_segment_id(address.segment_ord);
            collector.collect(*id, address.doc_id, u64::from(score.to_bits()));
        }
    }
    let hits = collector.top_docs();
    resolve_hits(&indexes, &hits)
        .into_iter()
        .map(|r| r.expect("failed to read doc"))
        .collect()
}

#[test]
fn indexed_record_round_trips_through_search() {
    let mut indexer = Indexer::new(Store::new());

    let record = Node::Object(vec![
        entry("a", Node::Signed(13)),
        entry("b", text("hello world")),
    ]);
    indexer.index(&record).expect("failed to index");

    let docs = search_all(indexer.store(), "b:hello", 10);
    assert_eq!(docs.len(), 1);

    let parsed: serde_json::Value =
        serde_json::from_str(&docs[0]).expect("failed to parse rendered doc");
    assert_eq!(parsed["b"][0], serde_json::Value::from("hello world"));
    assert_eq!(parsed["a"][0], serde_json::Value::from(13));
}

#[test]
fn commit_makes_a_record_visible_to_the_next_search() {
    let mut indexer = Indexer::new(Store::new());

    let first = Node::Object(vec![entry("msg", text("alpha event"))]);
    indexer.index(&first).expect("failed to index");
    assert_eq!(search_all(indexer.store(), "msg:alpha", 10).len(), 1);

    let second = Node::Object(vec![entry("msg", text("alpha again"))]);
    indexer.index(&second).expect("failed to index");
    assert_eq!(search_all(indexer.store(), "msg:alpha", 10).len(), 2);
}

#[test]
fn records_of_different_shapes_merge_into_one_ranking() {
    let mut indexer = Indexer::new(Store::new());

    let shape_one = Node::Object(vec![entry("msg", text("shared token")), entry(
        "level",
        text("info"),
    )]);
    let shape_two = Node::Object(vec![entry("msg", text("shared words"))]);
    indexer.index(&shape_one).expect("failed to index");
    indexer.index(&shape_two).expect("failed to index");

    // Two distinct shapes mean two indexes in the registry.
    assert_eq!(indexer.store().indexes().len(), 2);

    let docs = search_all(indexer.store(), "msg:shared", 10);
    assert_eq!(docs.len(), 2);
}

#[test]
fn resolving_a_hit_without_its_index_reports_an_engine_error() {
    let indexes: Vec<(u64, tantivy::Index)> = Vec::new();
    let hits = vec![Hit { score: 1, index: 42, segment: 0, doc: 0 }];
    let results = resolve_hits(&indexes, &hits);
    assert_eq!(results.len(), 1);
    assert!(matches!(results[0], Err(Error::Engine(_))));
}

#[test]
fn resolving_a_hit_with_a_bogus_segment_reports_an_engine_error() {
    let mut indexer = Indexer::new(Store::new());
    let record = Node::Object(vec![entry("msg", text("present"))]);
    indexer.index(&record).expect("failed to index");

    let indexes = indexer.store().indexes();
    let fp = indexes[0].0;
    let hits = vec![Hit { score: 1, index: fp, segment: 99, doc: 0 }];
    let results = resolve_hits(&indexes, &hits);
    assert_eq!(results.len(), 1);
    assert!(matches!(results[0], Err(Error::Engine(_))));
}
