//! Fuzzy lookup of a query in a catalog of items.
//!
//! A record's score is the smallest edit distance between the query and any of
//! its four text fields; the record with the smallest score wins, and among
//! records with equal scores the earliest one in the catalog.

use vstd::prelude::*;
use crate::error::RecordError;

verus! {

/// One catalog entry.
#[derive(Debug)]
pub struct Item {
    pub id: String,
    pub name: String,
    pub short_name: String,
    pub normalized_name: String,
}

/// A catalog entry as the catalog service delivers it; its text fields may be absent.
#[derive(Debug)]
pub struct CatalogEntry {
    pub id: String,
    pub name: Option<String>,
    pub short_name: Option<String>,
    pub normalized_name: Option<String>,
}

/// The entry is present and has all three text fields.
pub open spec fn is_complete(entry: Option<CatalogEntry>) -> bool {
    &&& entry is Some
    &&& entry->0.name is Some
    &&& entry->0.short_name is Some
    &&& entry->0.normalized_name is Some
}

/// `item` holds the fields of the complete `entry`.
pub open spec fn item_of(entry: CatalogEntry, item: Item) -> bool {
    &&& item.id@ == entry.id@
    &&& item.name@ == entry.name->0@
    &&& item.short_name@ == entry.short_name->0@
    &&& item.normalized_name@ == entry.normalized_name->0@
}

/// The catalog made of `entries`, in their order; fails with
/// `MissingRequiredField` when an entry or one of its text fields is absent.
pub fn build_catalog(entries: &[Option<CatalogEntry>]) -> (r: Result<Vec<Item>, RecordError>)
    ensures
        r is Ok <==> forall|i: int| 0 <= i < entries@.len() ==> is_complete(#[trigger] entries@[i]),
        r matches Err(e) ==> e == RecordError::MissingRequiredField,
        r matches Ok(items) ==> items@.len() == entries@.len() && forall|i: int|
            0 <= i < entries@.len() ==> item_of(entries@[i]->0, #[trigger] items@[i]),
{
    let mut items: Vec<Item> = Vec::new();
    let mut k: usize = 0;
    while k < entries.len()
        invariant
            k <= entries@.len(),
            items@.len() == k,
            forall|i: int| 0 <= i < k ==> is_complete(#[trigger] entries@[i]),
            forall|i: int| 0 <= i < k ==> item_of(entries@[i]->0, #[trigger] items@[i]),
        decreases entries@.len() - k,
    {
        match &entries[k] {
            Some(entry) => match (&entry.name, &entry.short_name, &entry.normalized_name) {
                (Some(name), Some(short_name), Some(normalized_name)) => {
                    items.push(
                        Item {
                            id: entry.id.clone(),
                            name: name.clone(),
                            short_name: short_name.clone(),
                            normalized_name: normalized_name.clone(),
                        },
                    );
                },
                _ => {
                    return Err(RecordError::MissingRequiredField);
                },
            },
            None => {
                return Err(RecordError::MissingRequiredField);
            },
        }
        k += 1;
    }
    Ok(items)
}

/// The Levenshtein distance between two character sequences, as strsim computes it.
pub uninterp spec fn levenshtein_of(a: Seq<char>, b: Seq<char>) -> nat;

/// Relies on `strsim::levenshtein`: the minimum number of single-character
/// insertions, deletions and substitutions turning `a` into `b`, counted over
/// `char`s. That number is zero exactly when the two strings are equal.
#[verifier::external_body]
fn edit_distance(a: &str, b: &str) -> (r: usize)
    ensures
        r as nat == levenshtein_of(a@, b@),
        r == 0 <==> a@ == b@,
{
    strsim::levenshtein(a, b)
}

pub open spec fn min_nat(a: nat, b: nat) -> nat {
    if a <= b {
        a
    } else {
        b
    }
}

/// The score of `item` against `query`: its smallest distance over the four fields.
pub open spec fn score(query: Seq<char>, item: Item) -> nat {
    min_nat(
        min_nat(levenshtein_of(query, item.id@), levenshtein_of(query, item.name@)),
        min_nat(levenshtein_of(query, item.short_name@), levenshtein_of(query, item.normalized_name@)),
    )
}

/// `query` equals one of the four fields of `item` exactly.
pub open spec fn names(query: Seq<char>, item: Item) -> bool {
    query == item.id@ || query == item.name@ || query == item.short_name@
        || query == item.normalized_name@
}

/// Position `i` holds the first record of `items` with the smallest score.
pub open spec fn is_closest(query: Seq<char>, items: Seq<Item>, i: int) -> bool {
    &&& 0 <= i < items.len()
    &&& forall|j: int|
        0 <= j < items.len() ==> score(query, items[i]) <= #[trigger] score(query, items[j])
    &&& forall|j: int| 0 <= j < i ==> score(query, items[i]) < #[trigger] score(query, items[j])
}

/// Position `j` holds the first record of `items` that `query` names exactly.
pub open spec fn is_first_exact(query: Seq<char>, items: Seq<Item>, j: int) -> bool {
    &&& 0 <= j < items.len()
    &&& names(query, items[j])
    &&& forall|k: int| 0 <= k < j ==> !names(query, #[trigger] items[k])
}

/// A query and a catalog determine the closest position: no two positions are
/// both closest.
pub proof fn closest_is_unique(query: Seq<char>, items: Seq<Item>, i: int, j: int)
    requires
        is_closest(query, items, i),
        is_closest(query, items, j),
    ensures
        i == j,
{
    if i < j {
        assert(score(query, items[j]) < score(query, items[i]));
    } else if j < i {
        assert(score(query, items[i]) < score(query, items[j]));
    }
}

/// When two records share the smallest score, the closest position is never the
/// later of the two: it is the earlier one, or a still earlier record with that score.
pub proof fn tie_goes_to_earlier(query: Seq<char>, items: Seq<Item>, i: int, a: int, b: int)
    requires
        is_closest(query, items, i),
        0 <= a < b < items.len(),
        score(query, items[a]) == score(query, items[b]),
        forall|j: int|
            0 <= j < items.len() ==> score(query, items[a]) <= #[trigger] score(query, items[j]),
    ensures
        i <= a,
        i != b,
{
    if a < i {
        assert(score(query, items[i]) < score(query, items[a]));
        assert(score(query, items[a]) <= score(query, items[i]));
    }
}

/// The score of `item` against `search`.
pub fn match_distance(search: &str, item: &Item) -> (r: usize)
    ensures
        r as nat == score(search@, *item),
        r == 0 <==> names(search@, *item),
{
    let d_id = edit_distance(search, item.id.as_str());
    let d_name = edit_distance(search, item.name.as_str());
    let d_short = edit_distance(search, item.short_name.as_str());
    let d_normalized = edit_distance(search, item.normalized_name.as_str());
    let first = if d_id <= d_name {
        d_id
    } else {
        d_name
    };
    let second = if d_short <= d_normalized {
        d_short
    } else {
        d_normalized
    };
    if first <= second {
        first
    } else {
        second
    }
}

/// The record of `objects` closest to `search`, or `None` when `objects` is empty.
pub fn find_closest_object<'a>(search: &str, objects: &'a [Item]) -> (r: Option<&'a Item>)
    ensures
        r is None <==> objects@.len() == 0,
        r matches Some(found) ==> exists|i: int|
            #[trigger] is_closest(search@, objects@, i) && *found == objects@[i],
        forall|j: int|
            #[trigger] is_first_exact(search@, objects@, j) ==> (r matches Some(found)
                && *found == objects@[j]),
{
    if objects.len() == 0 {
        return None;
    }
    let mut best: usize = 0;
    let mut best_score = match_distance(search, &objects[0]);
    let mut k: usize = 1;
    while k < objects.len()
        invariant
            1 <= k <= objects@.len(),
            best < k,
            best_score as nat == score(search@, objects@[best as int]),
            forall|j: int|
                0 <= j < k ==> score(search@, objects@[best as int]) <= #[trigger] score(
                    search@,
                    objects@[j],
                ),
            forall|j: int|
                0 <= j < best ==> score(search@, objects@[best as int]) < #[trigger] score(
                    search@,
                    objects@[j],
                ),
            forall|j: int| 0 <= j < k ==> (score(search@, #[trigger] objects@[j]) == 0 <==> names(search@, objects@[j])),
        decreases objects@.len() - k,
    {
        let s = match_distance(search, &objects[k]);
        if s < best_score {
            best = k;
            best_score = s;
        }
        k += 1;
    }
    assert(is_closest(search@, objects@, best as int));
    assert forall|j: int| #[trigger] is_first_exact(search@, objects@, j) implies j == best as int by {
        assert(score(search@, objects@[j]) == 0);
        if (best as int) < j {
            assert(score(search@, objects@[best as int]) == 0);
        } else if j < best as int {
            assert(score(search@, objects@[j]) > score(search@, objects@[best as int]));
        }
    }
    Some(&objects[best])
}

} // verus!
