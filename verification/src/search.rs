//! Resolution of ranked hits back into rendered documents: each retained
//! (fingerprint, segment, doc id) is fetched from its own fingerprint's
//! index and rendered as a JSON field map through that index's schema.
//!
//! Query execution itself — parsing the query string and walking each
//! index's postings — happens outside, feeding every scored hit into the
//! shared [`MultiIndexCollector`](crate::collector::MultiIndexCollector);
//! resolution delivers one result per retained hit, failures alongside
//! successes, so one unreadable document never spoils the rest.

use vstd::prelude::*;

use crate::collector::Hit;
use crate::engine::doc_fits;
use crate::engine::doc_to_json;
use crate::engine::doc_values;
use crate::engine::error_text;
use crate::engine::index_reader;
use crate::engine::index_schema;
use crate::engine::reader_searcher;
use crate::engine::schema_fields;
use crate::engine::searcher_doc;
use crate::engine::segment_count;
use crate::error::Error;
use crate::store::has_id;
use crate::store::ids_of;

verus! {

/// The position of a fingerprint's index in a registry snapshot.
fn find_index(indexes: &Vec<(u64, tantivy::Index)>, id: u64) -> (r: Option<usize>)
    ensures
        match r {
            Some(j) => j < indexes@.len() && indexes@[j as int].0 == id,
            None => !has_id(ids_of(indexes@), id),
        },
{
    let mut i: usize = 0;
    while i < indexes.len()
        invariant
            i <= indexes@.len(),
            forall|j: int| 0 <= j < i ==> #[trigger] indexes@[j].0 != id,
        decreases indexes@.len() - i,
    {
        if indexes[i].0 == id {
            return Some(i);
        }
        i += 1;
    }
    proof {
        assert forall|j: int| 0 <= j < ids_of(indexes@).len() implies #[trigger] ids_of(
            indexes@,
        )[j] != id by {
            assert(indexes@[j].0 != id);
        }
    }
    None
}

/// Resolves one ranked hit into its rendered document. A fingerprint that
/// is not in the snapshot, a segment the searcher does not hold, or any
/// engine failure yields this hit's own error.
fn resolve_hit(indexes: &Vec<(u64, tantivy::Index)>, hit: &Hit) -> (r: Result<String, Error>)
    ensures
        !has_id(ids_of(indexes@), hit.index) ==> r is Err,
{
    let j = match find_index(indexes, hit.index) {
        Some(j) => j,
        None => {
            return Err(Error::Engine("no index for this fingerprint".to_owned()));
        },
    };
    proof {
        assert(ids_of(indexes@)[j as int] == hit.index);
        assert(has_id(ids_of(indexes@), hit.index));
    }
    let index = &indexes[j].1;
    let reader = match index_reader(index) {
        Ok(r) => r,
        Err(e) => {
            return Err(Error::Engine(error_text(&e)));
        },
    };
    let searcher = reader_searcher(&reader);
    if hit.segment as usize >= segment_count(&searcher) {
        return Err(Error::Engine("no such segment in this index".to_owned()));
    }
    let doc = match searcher_doc(&searcher, hit.segment, hit.doc) {
        Ok(d) => d,
        Err(e) => {
            return Err(Error::Engine(error_text(&e)));
        },
    };
    let schema = index_schema(index);
    proof {
        assert(doc_fits(doc_values(doc), schema_fields(schema)));
    }
    Ok(doc_to_json(&doc, &schema))
}

/// Resolves every ranked hit, in rank order, into one result per hit:
/// partial success is delivered alongside per-document failures, and a hit
/// whose fingerprint is not in the snapshot always reports a failure.
pub fn resolve_hits(indexes: &Vec<(u64, tantivy::Index)>, hits: &Vec<Hit>) -> (r: Vec<
    Result<String, Error>,
>)
    ensures
        r@.len() == hits@.len(),
        forall|i: int|
            0 <= i < hits@.len() && !has_id(ids_of(indexes@), (#[trigger] hits@[i]).index)
                ==> r@[i] is Err,
{
    let mut out: Vec<Result<String, Error>> = Vec::new();
    let mut i: usize = 0;
    while i < hits.len()
        invariant
            i <= hits@.len(),
            out@.len() == i,
            forall|k: int|
                0 <= k < i && !has_id(ids_of(indexes@), (#[trigger] hits@[k]).index)
                    ==> out@[k] is Err,
        decreases hits@.len() - i,
    {
        out.push(resolve_hit(indexes, &hits[i]));
        i += 1;
    }
    out
}

} // verus!
