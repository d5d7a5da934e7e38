//! Row materialization: one row object and the field list become a flat,
//! positionally-ordered tuple of nullable textual cells. A row is either
//! fully materialized or the scan fails; no partial tuple is ever emitted.

use vstd::prelude::*;

use crate::ScanError;
use crate::json::JsonValue;
use crate::json::RowObject;
use crate::json::obj_get;
use crate::json::obj_lookup;
use crate::json::seq_views;

verus! {

/// The cell produced for one requested field of a row: an absent key or an
/// explicit null is an unset cell, a scalar becomes its canonical text, and
/// a nested value is a field-type failure — never silently stringified.
pub open spec fn field_cell(row: Seq<(String, JsonValue)>, f: Seq<char>) -> Result<
    Option<Seq<char>>,
    ScanError,
> {
    match obj_lookup(row, f) {
        None => Ok(None),
        Some(v) => match v {
            JsonValue::Null => Ok(None),
            JsonValue::Bool(b) => Ok(
                Some(
                    if b {
                        "true"@
                    } else {
                        "false"@
                    },
                ),
            ),
            JsonValue::Number(s) => Ok(Some(s@)),
            JsonValue::Text(s) => Ok(Some(s@)),
            JsonValue::Array(_) => Err(ScanError::FieldTypeError),
            JsonValue::Object(_) => Err(ScanError::FieldTypeError),
        },
    }
}

/// The whole tuple for a row: one cell per field, in field-list order; the
/// first non-scalar field aborts the row.
pub open spec fn mat_row(row: Seq<(String, JsonValue)>, fields: Seq<Seq<char>>) -> Result<
    Seq<Option<Seq<char>>>,
    ScanError,
>
    decreases fields.len(),
{
    if fields.len() == 0 {
        Ok(Seq::empty())
    } else {
        match field_cell(row, fields[0]) {
            Err(e) => Err(e),
            Ok(c) => match mat_row(row, fields.drop_first()) {
                Err(e) => Err(e),
                Ok(rest) => Ok(seq![c] + rest),
            },
        }
    }
}

/// The views of a sequence of nullable strings.
pub open spec fn cells_views(cells: Seq<Option<String>>) -> Seq<Option<Seq<char>>> {
    cells.map_values(
        |c: Option<String>|
            match c {
                Some(s) => Some(s@),
                None => None,
            },
    )
}

proof fn lemma_mat_row_snoc(row: Seq<(String, JsonValue)>, fields: Seq<Seq<char>>, f: Seq<char>)
    ensures
        mat_row(row, fields.push(f)) == (match mat_row(row, fields) {
            Err(e) => Err::<Seq<Option<Seq<char>>>, ScanError>(e),
            Ok(cs) => match field_cell(row, f) {
                Err(e) => Err::<Seq<Option<Seq<char>>>, ScanError>(e),
                Ok(c) => Ok::<Seq<Option<Seq<char>>>, ScanError>(cs.push(c)),
            },
        }),
    decreases fields.len(),
{
    let p = fields.push(f);
    if fields.len() == 0 {
        assert(p[0] == f);
        assert(p.drop_first() =~= Seq::<Seq<char>>::empty());
        assert(mat_row(row, p.drop_first()) == Ok::<Seq<Option<Seq<char>>>, ScanError>(
            Seq::empty(),
        ));
        match field_cell(row, f) {
            Ok(c) => {
                assert(mat_row(row, p) == Ok::<Seq<Option<Seq<char>>>, ScanError>(
                    seq![c] + Seq::empty(),
                ));
                assert(seq![c] + Seq::<Option<Seq<char>>>::empty() =~= Seq::<
                    Option<Seq<char>>,
                >::empty().push(c));
            },
            Err(e) => {
                assert(mat_row(row, p) == Err::<Seq<Option<Seq<char>>>, ScanError>(e));
            },
        }
    } else {
        assert(p[0] == fields[0]);
        assert(p.drop_first() =~= fields.drop_first().push(f));
        lemma_mat_row_snoc(row, fields.drop_first(), f);
        assert(mat_row(row, p.drop_first()) == mat_row(row, fields.drop_first().push(f)));
        match (field_cell(row, fields[0]), mat_row(row, fields.drop_first()), field_cell(row, f)) {
            (Ok(c0), Ok(rest), Ok(c)) => {
                assert(mat_row(row, p.drop_first()) == Ok::<Seq<Option<Seq<char>>>, ScanError>(
                    rest.push(c),
                ));
                assert(mat_row(row, p) == Ok::<Seq<Option<Seq<char>>>, ScanError>(
                    seq![c0] + rest.push(c),
                ));
                assert(mat_row(row, fields) == Ok::<Seq<Option<Seq<char>>>, ScanError>(
                    seq![c0] + rest,
                ));
                assert(seq![c0] + rest.push(c) =~= (seq![c0] + rest).push(c));
            },
            _ => {},
        }
    }
}

/// Law: materialization is total and positional. When it succeeds, the
/// tuple holds exactly one cell per requested field, each cell being that
/// field's, in field-list order; an absent field yields an unset cell, not
/// an error; and it fails only when some requested field is non-scalar.
pub proof fn lemma_materializer_positional(row: Seq<(String, JsonValue)>, fields: Seq<Seq<char>>)
    ensures
        mat_row(row, fields) matches Ok(cells) ==> cells.len() == fields.len(),
        mat_row(row, fields) matches Ok(cells) ==> forall|i: int|
            0 <= i < fields.len() ==> field_cell(row, fields[i]) == Ok::<
                Option<Seq<char>>,
                ScanError,
            >(cells[i]),
        forall|f: Seq<char>|
            obj_lookup(row, f) is None ==> #[trigger] field_cell(row, f) == Ok::<
                Option<Seq<char>>,
                ScanError,
            >(None),
        mat_row(row, fields) is Err ==> exists|i: int|
            0 <= i < fields.len() && #[trigger] field_cell(row, fields[i]) is Err,
    decreases fields.len(),
{
    if fields.len() > 0 {
        lemma_materializer_positional(row, fields.drop_first());
        match mat_row(row, fields) {
            Ok(cells) => {
                assert forall|i: int|
                    0 <= i < fields.len() implies field_cell(row, fields[i]) == Ok::<
                    Option<Seq<char>>,
                    ScanError,
                >(cells[i]) by {
                    if i > 0 {
                        assert(fields.drop_first()[i - 1] == fields[i]);
                        assert(cells.drop_first()[i - 1] == cells[i]);
                        assert(cells.drop_first() =~= mat_row(row, fields.drop_first())->Ok_0);
                    }
                }
            },
            Err(_) => {
                if field_cell(row, fields[0]) is Err {
                } else if mat_row(row, fields.drop_first()) is Err {
                    let i = choose|i: int|
                        0 <= i < fields.drop_first().len() && #[trigger] field_cell(
                            row,
                            fields.drop_first()[i],
                        ) is Err;
                    assert(fields.drop_first()[i] == fields[i + 1]);
                    assert(field_cell(row, fields[i + 1]) is Err);
                }
            },
        }
    }
}

/// The first erring field decides the outcome for the whole field list.
proof fn lemma_mat_row_first_err(row: Seq<(String, JsonValue)>, fields: Seq<Seq<char>>, j: int)
    requires
        0 <= j < fields.len(),
        forall|k: int| 0 <= k < j ==> #[trigger] field_cell(row, fields[k]) is Ok,
        field_cell(row, fields[j]) is Err,
    ensures
        mat_row(row, fields) == Err::<Seq<Option<Seq<char>>>, ScanError>(
            field_cell(row, fields[j])->Err_0,
        ),
    decreases j,
{
    if j > 0 {
        assert(field_cell(row, fields[0]) is Ok);
        assert forall|k: int| 0 <= k < j - 1 implies #[trigger] field_cell(
            row,
            fields.drop_first()[k],
        ) is Ok by {
            assert(fields.drop_first()[k] == fields[k + 1]);
        }
        assert(fields.drop_first()[j - 1] == fields[j]);
        lemma_mat_row_first_err(row, fields.drop_first(), j - 1);
    }
}

/// Materializes one row object into the flat tuple the consuming engine
/// iterates: one nullable textual cell per requested field, positionally
/// aligned with the field list.
#[verifier::loop_isolation(false)]
pub fn materialize_row(row: &RowObject, fields: &Vec<String>) -> (r: Result<
    Vec<Option<String>>,
    ScanError,
>)
    ensures
        match mat_row(row@, seq_views(fields@)) {
            Ok(cs) => r matches Ok(cells) && cells_views(cells@) == cs,
            Err(e) => r == Err::<Vec<Option<String>>, ScanError>(e),
        },
{
    let ghost fv = seq_views(fields@);
    let mut out: Vec<Option<String>> = Vec::new();
    let mut i: usize = 0;
    proof {
        assert(fv.take(0) =~= Seq::<Seq<char>>::empty());
        assert(cells_views(out@) =~= Seq::<Option<Seq<char>>>::empty());
    }
    while i < fields.len()
        invariant
            0 <= i as int <= fields@.len(),
            out@.len() == i,
            mat_row(row@, fv.take(i as int)) == Ok::<Seq<Option<Seq<char>>>, ScanError>(
                cells_views(out@),
            ),
        decreases fields@.len() - i,
    {
        proof {
            assert(fv[i as int] == fields@[i as int]@);
        }
        let cell: Option<String> = match obj_get(row, &fields[i]) {
            None => None,
            Some(v) => match v {
                JsonValue::Null => None,
                JsonValue::Bool(b) => Some(
                    if *b {
                        String::from_str("true")
                    } else {
                        String::from_str("false")
                    },
                ),
                JsonValue::Number(s) => Some(s.clone()),
                JsonValue::Text(s) => Some(s.clone()),
                JsonValue::Array(_) => {
                    proof {
                        lemma_materializer_positional(row@, fv.take(i as int));
                        assert forall|k: int| 0 <= k < i as int implies #[trigger] field_cell(
                            row@,
                            fv[k],
                        ) is Ok by {
                            assert(field_cell(row@, fv.take(i as int)[k]) is Ok);
                        }
                        lemma_mat_row_first_err(row@, fv, i as int);
                    }
                    return Err(ScanError::FieldTypeError);
                },
                JsonValue::Object(_) => {
                    proof {
                        lemma_materializer_positional(row@, fv.take(i as int));
                        assert forall|k: int| 0 <= k < i as int implies #[trigger] field_cell(
                            row@,
                            fv[k],
                        ) is Ok by {
                            assert(field_cell(row@, fv.take(i as int)[k]) is Ok);
                        }
                        lemma_mat_row_first_err(row@, fv, i as int);
                    }
                    return Err(ScanError::FieldTypeError);
                },
            },
        };
        proof {
            lemma_mat_row_snoc(row@, fv.take(i as int), fv[i as int]);
            assert(fv.take(i as int + 1) =~= fv.take(i as int).push(fv[i as int]));
            assert(field_cell(row@, fv[i as int]) is Ok);
            assert(cells_views(out@.push(cell)) =~= cells_views(out@).push(
                match cell {
                    Some(s) => Some(s@),
                    None => None,
                },
            ));
            assert(field_cell(row@, fv[i as int])->Ok_0 == (match cell {
                Some(s) => Some(s@),
                None => None,
            }));
        }
        out.push(cell);
        i += 1;
    }
    proof {
        assert(fv.take(fields@.len() as int) =~= fv);
    }
    Ok(out)
}

} // verus!
