//! Response navigation: walking the parsed document along the table path,
//! one keyed lookup per segment, and extracting the row collection at the
//! end. No partial-path fallback: any missing segment or a leaf that is not
//! a collection of objects fails the scan.

use vstd::prelude::*;

use crate::ScanError;
use crate::json::JsonValue;
use crate::json::RowObject;
use crate::json::obj_lookup;
use crate::json::obj_take;
use crate::json::seq_views;

verus! {

/// The value reached from `v` by successive key lookups of `path[i..]`.
pub open spec fn nav_path(v: JsonValue, path: Seq<Seq<char>>, i: int) -> Option<JsonValue>
    decreases path.len() - i,
{
    if i < 0 || i >= path.len() {
        Some(v)
    } else {
        match v {
            JsonValue::Object(entries) => match obj_lookup(entries@, path[i]) {
                Some(w) => nav_path(w, path, i + 1),
                None => None,
            },
            _ => None,
        }
    }
}

/// The full walk: the document must be an object exposing the top-level
/// `data` container, then one lookup per path segment.
pub open spec fn nav_doc(doc: JsonValue, path: Seq<Seq<char>>) -> Option<JsonValue> {
    match doc {
        JsonValue::Object(entries) => match obj_lookup(entries@, "data"@) {
            Some(v) => nav_path(v, path, 0),
            None => None,
        },
        _ => None,
    }
}

/// The row objects of a leaf value, when it is a collection of objects.
pub open spec fn rows_spec(v: JsonValue) -> Option<Seq<RowObject>> {
    match v {
        JsonValue::Array(items) => if forall|i: int|
            0 <= i < items@.len() ==> items@[i] is Object {
            Some(Seq::new(items@.len(), |i: int| items@[i]->Object_0))
        } else {
            None
        },
        _ => None,
    }
}

/// What the navigator returns for a document and path: the RowSet at the
/// end of the walk, or a shape error.
pub open spec fn navigate_spec(doc: JsonValue, path: Seq<Seq<char>>) -> Result<
    Seq<RowObject>,
    ScanError,
> {
    match nav_doc(doc, path) {
        Some(v) => match rows_spec(v) {
            Some(rs) => Ok(rs),
            None => Err(ScanError::ResponseShapeError),
        },
        None => Err(ScanError::ResponseShapeError),
    }
}

/// Walks the table path through the response document and hands out the
/// row collection at its end, in response order, never reordered.
#[verifier::loop_isolation(false)]
pub fn navigate(doc: JsonValue, path: &Vec<String>) -> (r: Result<Vec<RowObject>, ScanError>)
    ensures
        navigate_spec(doc, seq_views(path@)) matches Ok(rs) ==> (r matches Ok(rows) && rows@
            == rs),
        navigate_spec(doc, seq_views(path@)) matches Err(e) ==> r == Err::<
            Vec<RowObject>,
            ScanError,
        >(e),
{
    let ghost gdoc = doc;
    let ghost pv = seq_views(path@);
    let data_key = String::from_str("data");
    let mut cur: JsonValue;
    match doc {
        JsonValue::Object(mut entries) => {
            match obj_take(&mut entries, &data_key) {
                Some(v) => {
                    cur = v;
                },
                None => {
                    return Err(ScanError::ResponseShapeError);
                },
            }
        },
        _ => {
            return Err(ScanError::ResponseShapeError);
        },
    }
    assert(nav_doc(gdoc, pv) == nav_path(cur, pv, 0));
    let mut i: usize = 0;
    while i < path.len()
        invariant
            pv == seq_views(path@),
            0 <= i as int <= path@.len(),
            nav_doc(gdoc, pv) == nav_path(cur, pv, i as int),
        decreases path@.len() - i,
    {
        let ghost gcur = cur;
        match cur {
            JsonValue::Object(mut entries) => {
                proof {
                    assert(pv[i as int] == path@[i as int]@);
                    assert(gcur == JsonValue::Object(entries));
                }
                match obj_take(&mut entries, &path[i]) {
                    Some(v) => {
                        cur = v;
                    },
                    None => {
                        proof {
                            assert(nav_path(gcur, pv, i as int) is None);
                        }
                        return Err(ScanError::ResponseShapeError);
                    },
                }
            },
            _ => {
                proof {
                    assert(nav_path(gcur, pv, i as int) is None);
                }
                return Err(ScanError::ResponseShapeError);
            },
        }
        i += 1;
    }
    assert(nav_doc(gdoc, pv) == Some(cur));
    let ghost gleaf = cur;
    match cur {
        JsonValue::Array(mut items) => {
            let ghost gitems = items@;
            let n = items.len();
            let mut rows: Vec<RowObject> = Vec::new();
            let mut k: usize = 0;
            while k < n
                invariant
                    n == gitems.len(),
                    0 <= k as int <= n,
                    items@ =~= gitems.subrange(k as int, n as int),
                    rows@.len() == k,
                    forall|j: int| 0 <= j < k ==> gitems[j] is Object,
                    forall|j: int| 0 <= j < k ==> rows@[j] == gitems[j]->Object_0,
                decreases n - k,
            {
                let item = items.remove(0);
                assert(item == gitems[k as int]);
                match item {
                    JsonValue::Object(entries) => {
                        rows.push(entries);
                    },
                    _ => {
                        proof {
                            assert(gleaf->Array_0@ == gitems);
                            assert(gleaf->Array_0@[k as int] !is Object);
                            assert(rows_spec(gleaf) is None);
                        }
                        return Err(ScanError::ResponseShapeError);
                    },
                }
                proof {
                    assert(items@ =~= gitems.subrange(k as int + 1, n as int));
                }
                k += 1;
            }
            proof {
                assert(rows@ =~= Seq::new(gitems.len(), |j: int| gitems[j]->Object_0));
            }
            Ok(rows)
        },
        _ => Err(ScanError::ResponseShapeError),
    }
}

/// Builds a response document that nests `rows` under the top-level `data`
/// container and then under each path segment in turn.
///
/// Law (round trip): the contract states that navigating the built document
/// with the same path recovers exactly the rows it was built from, in
/// order; together with `navigate`'s own contract this closes the loop.
#[verifier::loop_isolation(false)]
pub fn wrap_rows(rows: Vec<RowObject>, path: &Vec<String>) -> (doc: JsonValue)
    ensures
        navigate_spec(doc, seq_views(path@)) matches Ok(rs) && rs == rows@,
{
    let ghost grows = rows@;
    let ghost pv = seq_views(path@);
    let mut remaining = rows;
    let mut items: Vec<JsonValue> = Vec::new();
    let n = remaining.len();
    let mut k: usize = 0;
    while k < n
        invariant
            n == grows.len(),
            0 <= k as int <= n,
            remaining@ =~= grows.subrange(k as int, n as int),
            items@.len() == k,
            forall|j: int| 0 <= j < k ==> items@[j] == JsonValue::Object(grows[j]),
        decreases n - k,
    {
        let row = remaining.remove(0);
        assert(row == grows[k as int]);
        items.push(JsonValue::Object(row));
        proof {
            assert(remaining@ =~= grows.subrange(k as int + 1, n as int));
        }
        k += 1;
    }
    let mut cur = JsonValue::Array(items);
    let ghost garr = cur;
    proof {
        assert(forall|j: int| 0 <= j < garr->Array_0@.len() ==> garr->Array_0@[j] is Object);
        assert(rows_spec(garr) matches Some(rs) && rs =~= grows);
        assert(nav_path(cur, pv, path@.len() as int) == Some(garr));
    }
    let mut i: usize = path.len();
    while i > 0
        invariant
            0 <= i as int <= path@.len(),
            pv == seq_views(path@),
            nav_path(cur, pv, i as int) == Some(garr),
        decreases i,
    {
        i -= 1;
        let ghost gprev = cur;
        let key = path[i].clone();
        let mut entries: Vec<(String, JsonValue)> = Vec::new();
        entries.push((key, cur));
        cur = JsonValue::Object(entries);
        proof {
            assert(cur->Object_0@[0].0@ == pv[i as int]);
            assert(obj_lookup(cur->Object_0@, pv[i as int]) == Some(gprev));
            assert(nav_path(cur, pv, i as int) == nav_path(gprev, pv, i as int + 1));
        }
    }
    let data_key = String::from_str("data");
    let mut top: Vec<(String, JsonValue)> = Vec::new();
    let ghost ginner = cur;
    top.push((data_key, cur));
    let doc = JsonValue::Object(top);
    proof {
        assert(doc->Object_0@[0].0@ == "data"@);
        assert(obj_lookup(doc->Object_0@, "data"@) == Some(ginner));
        assert(nav_doc(doc, pv) == Some(garr));
        assert(navigate_spec(doc, pv) == Ok::<Seq<RowObject>, ScanError>(grows));
    }
    doc
}

} // verus!
