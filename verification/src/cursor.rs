//! The scan cursor: the stateful orchestrator that stores the RowSet found
//! by navigation and hands out one materialized tuple per `next` call, with
//! the `Unopened -> Open -> Exhausted` / `Closed` lifecycle.

use vstd::prelude::*;

use crate::ScanError;
use crate::json::JsonValue;
use crate::json::RowObject;
use crate::json::seq_views;
use crate::materialize::cells_views;
use crate::materialize::mat_row;
use crate::materialize::materialize_row;
use crate::navigate::navigate;
use crate::navigate::navigate_spec;
use crate::query::build_query_from_path;
use crate::query::gql_text;
use crate::query::split_dots;
use crate::query::split_path;
use crate::remote::parse_of;
use crate::remote::parse_response;

verus! {

/// Where a cursor stands in its lifecycle.
#[derive(Clone, Copy, Debug, PartialEq, Eq, Structural)]
pub enum CursorState {
    Unopened,
    Open,
    Exhausted,
    Closed,
}

/// One scan's cursor, exclusively owned by that scan: the plan-time pair of
/// table path and field list, and once opened, the RowSet and the index of
/// the next row to emit.
pub struct ScanCursor {
    pub state: CursorState,
    pub path: Vec<String>,
    pub fields: Vec<String>,
    pub rows: Vec<RowObject>,
    pub idx: usize,
}

impl ScanCursor {
    /// Derives a fresh cursor at plan time: the dotted relation identifier
    /// split into the table path, the output columns kept verbatim and in
    /// order, nothing fetched yet.
    pub fn new(relname: &str, fields: Vec<String>) -> (c: Self)
        ensures
            c.state == CursorState::Unopened,
            seq_views(c.path@) == split_dots(relname@),
            c.fields@ == fields@,
            c.rows@.len() == 0,
            c.idx == 0,
    {
        ScanCursor {
            state: CursorState::Unopened,
            path: split_path(relname),
            fields,
            rows: Vec::new(),
            idx: 0,
        }
    }

    /// The remote query text this scan will send: built solely from the
    /// plan-time pair, never from execution-time data.
    pub fn query(&self) -> (r: String)
        ensures
            r@ == gql_text(seq_views(self.path@), seq_views(self.fields@)),
    {
        build_query_from_path(&self.path, &self.fields)
    }

    /// Stores the RowSet found by walking the parsed response document:
    /// `Unopened -> Open` with the index at the first row, or, when the
    /// document does not have the expected shape, a fatal error that closes
    /// the cursor with no rows retained.
    pub fn open(&mut self, doc: JsonValue) -> (r: Result<(), ScanError>)
        requires
            old(self).state == CursorState::Unopened,
        ensures
            final(self).path@ == old(self).path@,
            final(self).fields@ == old(self).fields@,
            final(self).idx == 0,
            match navigate_spec(doc, seq_views(old(self).path@)) {
                Ok(rs) => r == Ok::<(), ScanError>(()) && final(self).state == CursorState::Open
                    && final(self).rows@ == rs,
                Err(e) => r == Err::<(), ScanError>(e) && final(self).state == CursorState::Closed
                    && final(self).rows@.len() == 0,
            },
    {
        match navigate(doc, &self.path) {
            Ok(rows) => {
                self.rows = rows;
                self.idx = 0;
                self.state = CursorState::Open;
                Ok(())
            },
            Err(e) => {
                self.rows = Vec::new();
                self.idx = 0;
                self.state = CursorState::Closed;
                Err(e)
            },
        }
    }

    /// Opens the scan straight from the remote response body: the body is
    /// parsed — a malformed one is fatal, as a remote-call failure — and the
    /// document is walked as `open` does.
    pub fn open_with_body(&mut self, body: &str) -> (r: Result<(), ScanError>)
        requires
            old(self).state == CursorState::Unopened,
        ensures
            final(self).path@ == old(self).path@,
            final(self).fields@ == old(self).fields@,
            final(self).idx == 0,
            match parse_of(body@) {
                Some(doc) => match navigate_spec(doc, seq_views(old(self).path@)) {
                    Ok(rs) => r == Ok::<(), ScanError>(()) && final(self).state
                        == CursorState::Open && final(self).rows@ == rs,
                    Err(e) => r == Err::<(), ScanError>(e) && final(self).state
                        == CursorState::Closed && final(self).rows@.len() == 0,
                },
                None => r == Err::<(), ScanError>(ScanError::RemoteCallError) && final(self).state
                    == CursorState::Closed && final(self).rows@.len() == 0,
            },
    {
        match parse_response(body) {
            Ok(doc) => self.open(doc),
            Err(e) => {
                self.rows = Vec::new();
                self.idx = 0;
                self.state = CursorState::Closed;
                Err(e)
            },
        }
    }

    /// Emits the next materialized tuple, or signals end-of-data.
    ///
    /// Law: no more tuples than the RowSet holds are ever emitted — a tuple
    /// comes only while the index is inside the RowSet, the index grows by
    /// exactly one per emitted tuple and never decreases. Law: once
    /// `Exhausted`, every further call returns end-of-data and changes
    /// nothing at all.
    pub fn next(&mut self) -> (r: Result<Option<Vec<Option<String>>>, ScanError>)
        requires
            old(self).state == CursorState::Open || old(self).state == CursorState::Exhausted,
        ensures
            final(self).idx >= old(self).idx,
            final(self).path@ == old(self).path@,
            final(self).fields@ == old(self).fields@,
            final(self).rows@ == old(self).rows@,
            old(self).state == CursorState::Exhausted ==> (r matches Ok(t) && t is None
                && *final(self) == *old(self)),
            (old(self).state == CursorState::Open && old(self).idx >= old(self).rows@.len()) ==> (
            r matches Ok(t) && t is None && final(self).state == CursorState::Exhausted
                && final(self).idx == old(self).idx),
            (old(self).state == CursorState::Open && old(self).idx < old(self).rows@.len())
                ==> match mat_row(
                old(self).rows@[old(self).idx as int]@,
                seq_views(old(self).fields@),
            ) {
                Ok(cs) => r matches Ok(t) && t matches Some(cells) && cells_views(cells@) == cs
                    && final(self).idx == old(self).idx + 1 && final(self).state
                    == CursorState::Open,
                Err(e) => r == Err::<Option<Vec<Option<String>>>, ScanError>(e) && *final(self)
                    == *old(self),
            },
    {
        match self.state {
            CursorState::Exhausted => Ok(None),
            CursorState::Open => {
                if self.idx >= self.rows.len() {
                    self.state = CursorState::Exhausted;
                    Ok(None)
                } else {
                    match materialize_row(&self.rows[self.idx], &self.fields) {
                        Ok(cells) => {
                            self.idx = self.idx + 1;
                            Ok(Some(cells))
                        },
                        Err(e) => Err(e),
                    }
                }
            },
            _ => Err(ScanError::UnsupportedOperation),
        }
    }

    /// Rescan is outside this scope: the call fails explicitly and leaves
    /// the cursor exactly as it was — it never silently resumes with stale
    /// state.
    pub fn reset(&mut self) -> (r: Result<(), ScanError>)
        ensures
            r == Err::<(), ScanError>(ScanError::UnsupportedOperation),
            *final(self) == *old(self),
    {
        Err(ScanError::UnsupportedOperation)
    }

    /// Releases the RowSet; safe from any state and idempotent.
    pub fn close(&mut self)
        ensures
            final(self).state == CursorState::Closed,
            final(self).rows@.len() == 0,
            final(self).idx == 0,
            final(self).path@ == old(self).path@,
            final(self).fields@ == old(self).fields@,
    {
        self.rows = Vec::new();
        self.idx = 0;
        self.state = CursorState::Closed;
    }
}

} // verus!
