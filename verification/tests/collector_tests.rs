use flatindex::Hit;
use flatindex::MultiIndexCollector;

fn hit(score: u64, index: u64, segment: u32, doc: u32) -> Hit {
    Hit { score, index, segment, doc }
}

fn offer(c: &mut MultiIndexCollector, h: Hit) {
    c.set_segment_id(h.segment);
    c.collect(h.index, h.doc, h.score);
}

#[test]
fn collector_respects_its_limit() {
    let mut c = MultiIndexCollector::with_limit(3);
    for i in 0..10u32 {
        offer(&mut c, hit(100 + i as u64, 1, 0, i));
    }
    let top = c.top_docs();
    assert_eq!(top.len(), 3);
    assert_eq!(
        top,
        vec![hit(109, 1, 0, 9), hit(108, 1, 0, 8), hit(107, 1, 0, 7)]
    );
}

#[test]
fn drained_hits_are_sorted_descending_by_score() {
    let mut c = MultiIndexCollector::with_limit(10);
    offer(&mut c, hit(5, 1, 0, 0));
    offer(&mut c, hit(9, 1, 0, 1));
    offer(&mut c, hit(1, 1, 0, 2));
    offer(&mut c, hit(7, 1, 0, 3));
    let top = c.top_docs();
    assert_eq!(
        top,
        vec![hit(9, 1, 0, 1), hit(7, 1, 0, 3), hit(5, 1, 0, 0), hit(1, 1, 0, 2)]
    );
}

#[test]
fn full_collector_discards_scores_not_exceeding_the_weakest() {
    let mut c = MultiIndexCollector::with_limit(2);
    offer(&mut c, hit(10, 1, 0, 0));
    offer(&mut c, hit(20, 1, 0, 1));
    // Equal to the weakest retained score: discarded.
    offer(&mut c, hit(10, 2, 0, 2));
    // Below the weakest retained score: discarded.
    offer(&mut c, hit(5, 2, 0, 3));
    let top = c.top_docs();
    assert_eq!(top, vec![hit(20, 1, 0, 1), hit(10, 1, 0, 0)]);
}

#[test]
fn full_collector_replaces_the_weakest_on_a_higher_score() {
    let mut c = MultiIndexCollector::with_limit(2);
    offer(&mut c, hit(10, 1, 0, 0));
    offer(&mut c, hit(20, 1, 0, 1));
    offer(&mut c, hit(15, 2, 0, 2));
    let top = c.top_docs();
    assert_eq!(top, vec![hit(20, 1, 0, 1), hit(15, 2, 0, 2)]);
}

#[test]
fn merge_interleaves_fingerprints_by_score_alone() {
    // Hits from fingerprint 1 and fingerprint 2 with overlapping scores,
    // offered in two different interleavings.
    let stream_a = vec![hit(10, 1, 0, 0), hit(30, 1, 0, 1), hit(50, 1, 0, 2)];
    let stream_b = vec![hit(20, 2, 0, 0), hit(40, 2, 0, 1)];

    let mut c1 = MultiIndexCollector::with_limit(10);
    for h in stream_a.iter().chain(stream_b.iter()) {
        offer(&mut c1, *h);
    }
    let mut c2 = MultiIndexCollector::with_limit(10);
    for h in stream_b.iter().chain(stream_a.iter()) {
        offer(&mut c2, *h);
    }

    let expected = vec![
        hit(50, 1, 0, 2),
        hit(40, 2, 0, 1),
        hit(30, 1, 0, 1),
        hit(20, 2, 0, 0),
        hit(10, 1, 0, 0),
    ];
    assert_eq!(c1.top_docs(), expected);
    assert_eq!(c2.top_docs(), expected);
}

#[test]
fn score_ties_break_by_fingerprint_then_segment_then_doc() {
    let mut c = MultiIndexCollector::with_limit(10);
    offer(&mut c, hit(7, 2, 0, 0));
    offer(&mut c, hit(7, 1, 1, 5));
    offer(&mut c, hit(7, 1, 0, 9));
    offer(&mut c, hit(7, 1, 0, 2));
    let top = c.top_docs();
    assert_eq!(
        top,
        vec![hit(7, 1, 0, 2), hit(7, 1, 0, 9), hit(7, 1, 1, 5), hit(7, 2, 0, 0)]
    );
}
