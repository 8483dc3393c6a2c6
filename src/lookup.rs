//! What the lookup client does with keys and answers around a bulk request:
//! drop URIs that cannot be valid, line the answers up with the keys, and
//! split rows into inserts that fit the store's parameter limit.

use vstd::prelude::*;
use std::sync::Arc;
use crate::ids::{is_valid_at_uri, valid_at_uri};
use crate::models::{same_text, views, BlueskyPost, BlueskyProfile};

verus! {

/// Most identifiers or URIs in one bulk request.
pub const MAX_KEYS_PER_REQUEST: usize = 25;

/// Columns bound per stored row, and the driver's limit on bound parameters.
pub const COLUMNS_PER_ROW: usize = 12;
pub const MAX_PARAMS: usize = 999;
pub const MAX_ROWS_PER_INSERT: usize = MAX_PARAMS / COLUMNS_PER_ROW;

/// The valid canonical URIs among `uris`, in order; the others are never sent.
pub fn valid_uris(uris: &Vec<String>) -> (r: Vec<String>)
    ensures
        views(r@) == views(uris@).filter(|u: Seq<char>| valid_at_uri(u)),
{
    let ghost keep = |u: Seq<char>| valid_at_uri(u);
    let mut out: Vec<String> = Vec::new();
    let mut i: usize = 0;
    proof {
        reveal(Seq::filter);
        assert(views(uris@).subrange(0, 0).filter(keep) =~= Seq::<Seq<char>>::empty());
        assert(views(out@) =~= Seq::<Seq<char>>::empty());
    }
    while i < uris.len()
        invariant
            i <= uris@.len(),
            forall|x: Seq<char>| #[trigger] keep(x) == valid_at_uri(x),
            views(out@) == views(uris@).subrange(0, i as int).filter(keep),
        decreases uris@.len() - i,
    {
        let ghost prev = views(out@);
        let ok = is_valid_at_uri(uris[i].as_str());
        if ok {
            out.push(uris[i].clone());
            proof {
                assert(views(out@) =~= prev.push(uris@[i as int]@));
            }
        }
        proof {
            let s1 = views(uris@).subrange(0, i + 1);
            reveal(Seq::filter);
            assert(s1.drop_last() =~= views(uris@).subrange(0, i as int));
            assert(s1.last() == uris@[i as int]@);
        }
        i = i + 1;
    }
    proof {
        assert(views(uris@).subrange(0, uris@.len() as int) =~= views(uris@));
    }
    out
}

/// Whether some answered profile is for `did`.
pub open spec fn answered_profile(got: Seq<Arc<BlueskyProfile>>, did: Seq<char>) -> bool {
    exists|k: int| 0 <= k < got.len() && (#[trigger] got[k]).did@ == did
}

/// Lines answered profiles up with the requested identifiers: element `i`
/// holds a profile whose identifier is `dids[i]`, or nothing when none came.
pub fn align_profiles(dids: &Vec<String>, got: &Vec<Arc<BlueskyProfile>>) -> (r: Vec<Option<Arc<BlueskyProfile>>>)
    ensures
        r@.len() == dids@.len(),
        forall|i: int| 0 <= i < dids@.len() ==> (#[trigger] r@[i] is Some <==> answered_profile(got@, dids@[i]@)),
        forall|i: int| 0 <= i < dids@.len() && r@[i] is Some ==> got@.contains(r@[i]->0) && (#[trigger] r@[i]->0).did@ == dids@[i]@,
{
    let mut out: Vec<Option<Arc<BlueskyProfile>>> = Vec::new();
    let mut i: usize = 0;
    while i < dids.len()
        invariant
            i <= dids@.len(),
            out@.len() == i,
            forall|a: int| 0 <= a < i ==> (#[trigger] out@[a] is Some <==> answered_profile(got@, dids@[a]@)),
            forall|a: int| 0 <= a < i && out@[a] is Some ==> got@.contains(out@[a]->0) && (#[trigger] out@[a]->0).did@ == dids@[a]@,
        decreases dids@.len() - i,
    {
        let mut found: Option<Arc<BlueskyProfile>> = None;
        let mut k: usize = 0;
        while k < got.len()
            invariant
                i < dids@.len(),
                k <= got@.len(),
                found is None ==> forall|b: int| 0 <= b < k ==> (#[trigger] got@[b]).did@ != dids@[i as int]@,
                found is Some ==> got@.contains(found->0) && found->0.did@ == dids@[i as int]@,
            decreases got@.len() - k,
        {
            if found.is_none() && same_text(got[k].did.as_str(), dids[i].as_str()) {
                found = Some(got[k].clone());
                proof {
                    assert(got@[k as int] == found->0);
                }
            }
            k = k + 1;
        }
        let ghost prev = out@;
        out.push(found);
        proof {
            assert forall|a: int| 0 <= a < i + 1 implies (#[trigger] out@[a] is Some <==> answered_profile(got@, dids@[a]@)) by {
                if a < i {
                    assert(out@[a] == prev[a]);
                }
            }
            assert forall|a: int| 0 <= a < i + 1 && out@[a] is Some implies got@.contains(out@[a]->0) && (#[trigger] out@[a]->0).did@ == dids@[a]@ by {
                if a < i {
                    assert(out@[a] == prev[a]);
                }
            }
        }
        i = i + 1;
    }
    out
}

/// Whether some answered record is for `uri`.
pub open spec fn answered_post(got: Seq<Arc<BlueskyPost>>, uri: Seq<char>) -> bool {
    exists|k: int| 0 <= k < got.len() && (#[trigger] got[k]).uri@ == uri
}

/// Lines answered records up with the requested URIs: element `i` holds a
/// record whose URI is `uris[i]`, or nothing when none came.
pub fn align_posts(uris: &Vec<String>, got: &Vec<Arc<BlueskyPost>>) -> (r: Vec<Option<Arc<BlueskyPost>>>)
    ensures
        r@.len() == uris@.len(),
        forall|i: int| 0 <= i < uris@.len() ==> (#[trigger] r@[i] is Some <==> answered_post(got@, uris@[i]@)),
        forall|i: int| 0 <= i < uris@.len() && r@[i] is Some ==> got@.contains(r@[i]->0) && (#[trigger] r@[i]->0).uri@ == uris@[i]@,
{
    let mut out: Vec<Option<Arc<BlueskyPost>>> = Vec::new();
    let mut i: usize = 0;
    while i < uris.len()
        invariant
            i <= uris@.len(),
            out@.len() == i,
            forall|a: int| 0 <= a < i ==> (#[trigger] out@[a] is Some <==> answered_post(got@, uris@[a]@)),
            forall|a: int| 0 <= a < i && out@[a] is Some ==> got@.contains(out@[a]->0) && (#[trigger] out@[a]->0).uri@ == uris@[a]@,
        decreases uris@.len() - i,
    {
        let mut found: Option<Arc<BlueskyPost>> = None;
        let mut k: usize = 0;
        while k < got.len()
            invariant
                i < uris@.len(),
                k <= got@.len(),
                found is None ==> forall|b: int| 0 <= b < k ==> (#[trigger] got@[b]).uri@ != uris@[i as int]@,
                found is Some ==> got@.contains(found->0) && found->0.uri@ == uris@[i as int]@,
            decreases got@.len() - k,
        {
            if found.is_none() && same_text(got[k].uri.as_str(), uris[i].as_str()) {
                found = Some(got[k].clone());
                proof {
                    assert(got@[k as int] == found->0);
                }
            }
            k = k + 1;
        }
        let ghost prev = out@;
        out.push(found);
        proof {
            assert forall|a: int| 0 <= a < i + 1 implies (#[trigger] out@[a] is Some <==> answered_post(got@, uris@[a]@)) by {
                if a < i {
                    assert(out@[a] == prev[a]);
                }
            }
            assert forall|a: int| 0 <= a < i + 1 && out@[a] is Some implies got@.contains(out@[a]->0) && (#[trigger] out@[a]->0).uri@ == uris@[a]@ by {
                if a < i {
                    assert(out@[a] == prev[a]);
                }
            }
        }
        i = i + 1;
    }
    out
}

/// Splits `rows` rows into consecutive `(start, end)` ranges of at most
/// `MAX_ROWS_PER_INSERT` rows, each stored in one transaction.
pub fn insert_chunks(rows: usize) -> (r: Vec<(usize, usize)>)
    ensures
        rows == 0 ==> r@.len() == 0,
        rows > 0 ==> r@.len() > 0 && r@[0].0 == 0 && r@[r@.len() - 1].1 == rows,
        forall|i: int| 0 <= i < r@.len() ==> (#[trigger] r@[i]).0 < r@[i].1 && r@[i].1 - r@[i].0 <= MAX_ROWS_PER_INSERT,
        forall|i: int| 0 <= i < r@.len() - 1 ==> (#[trigger] r@[i]).1 == r@[i + 1].0,
        forall|i: int| 0 <= i < r@.len() - 1 ==> (#[trigger] r@[i]).1 - r@[i].0 == MAX_ROWS_PER_INSERT,
{
    let mut out: Vec<(usize, usize)> = Vec::new();
    let mut start: usize = 0;
    while start < rows
        invariant
            start <= rows,
            out@.len() == 0 <==> start == 0,
            out@.len() > 0 ==> out@[0].0 == 0 && out@[out@.len() - 1].1 == start,
            forall|i: int| 0 <= i < out@.len() ==> (#[trigger] out@[i]).0 < out@[i].1 && out@[i].1 - out@[i].0 <= MAX_ROWS_PER_INSERT,
            forall|i: int| 0 <= i < out@.len() - 1 ==> (#[trigger] out@[i]).1 == out@[i + 1].0,
            forall|i: int| 0 <= i < out@.len() - 1 ==> (#[trigger] out@[i]).1 - out@[i].0 == MAX_ROWS_PER_INSERT,
            out@.len() > 0 && start < rows ==> out@[out@.len() - 1].1 - out@[out@.len() - 1].0 == MAX_ROWS_PER_INSERT,
        decreases rows - start,
    {
        let end = if rows - start > MAX_ROWS_PER_INSERT { start + MAX_ROWS_PER_INSERT } else { rows };
        out.push((start, end));
        start = end;
    }
    out
}

} // verus!
