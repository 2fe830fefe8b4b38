//! The cursor state machine: rows buffered from EXECUTE and FETCH replies,
//! and the decision of what to do when the caller asks for the next row.

use vstd::prelude::*;
use std::collections::VecDeque;
use crate::constants::TNS_ERR_NO_DATA_FOUND;
use crate::error::Error;
use crate::messages::FetchMessage;
use crate::response::{ErrorInfo, ExecuteResponse, FetchResponse};
use crate::types::{ColumnMetadata, Row};

verus! {

/// An open statement's rows: those buffered locally and whether the server
/// holds more.
pub struct Cursor {
    columns: Vec<ColumnMetadata>,
    cursor_id: u32,
    buffer: VecDeque<Row>,
    more_rows: bool,
    fetch_size: u32,
    rows_fetched: u64,
}

/// What the caller is to do for the next row.
pub enum CursorStep {
    /// The next row, taken from the buffer.
    Row(Row),
    /// Send this FETCH and hand the reply to `on_fetch_response`.
    Fetch(FetchMessage),
    /// No rows are left; the cursor is closed.
    Done,
}

/// How an initial EXECUTE reply is to be followed up.
pub enum ExecuteOutcome {
    /// Rows arrived; more may follow by FETCH.
    Rows,
    /// No rows but more to come: the columns need a define-redescribe first.
    NeedsDefine,
    /// Every row fitted (or there were none); the cursor is closed.
    Complete,
}

/// The error of a reply whose error number is neither 0 nor 1403.
pub open spec fn is_failure(e: ErrorInfo) -> bool {
    e.error_num != 0 && e.error_num != TNS_ERR_NO_DATA_FOUND
}

fn failure_of(info: ErrorInfo) -> (r: Error)
    ensures
        r is Oracle && r->Oracle_code == info.error_num,
{
    let message = match info.message {
        Some(m) => m,
        None => String::new(),
    };
    Error::Oracle { code: info.error_num, message }
}

/// Decides how to continue after the initial EXECUTE: a server error fails;
/// rows mean rows; none with more to come means a define-redescribe; else done.
pub fn classify_execute(resp: &ExecuteResponse) -> (r: Result<ExecuteOutcome, u32>)
    ensures
        is_failure(resp.error_info) ==> r == Err::<ExecuteOutcome, u32>(resp.error_info.error_num),
        !is_failure(resp.error_info) && resp.rows@.len() > 0 ==> r is Ok && r->Ok_0 is Rows,
        !is_failure(resp.error_info) && resp.rows@.len() == 0 && resp.more_rows ==> r is Ok
            && r->Ok_0 is NeedsDefine,
        !is_failure(resp.error_info) && resp.rows@.len() == 0 && !resp.more_rows ==> r is Ok
            && r->Ok_0 is Complete,
{
    let e = resp.error_info.error_num;
    if e != 0 && e != TNS_ERR_NO_DATA_FOUND {
        Err(e)
    } else if resp.rows.len() > 0 {
        Ok(ExecuteOutcome::Rows)
    } else if resp.more_rows {
        Ok(ExecuteOutcome::NeedsDefine)
    } else {
        Ok(ExecuteOutcome::Complete)
    }
}

impl Cursor {
    /// The rows buffered and not yet taken, in order.
    pub closed spec fn spec_buffer(&self) -> Seq<Row> {
        self.buffer@
    }

    /// The server holds more rows.
    pub closed spec fn spec_more_rows(&self) -> bool {
        self.more_rows
    }

    /// The server's cursor id; 0 once closed.
    pub closed spec fn spec_cursor_id(&self) -> u32 {
        self.cursor_id
    }

    /// Rows received so far.
    pub closed spec fn spec_rows_fetched(&self) -> u64 {
        self.rows_fetched
    }

    /// Rows asked for per FETCH.
    pub closed spec fn spec_fetch_size(&self) -> u32 {
        self.fetch_size
    }

    /// The described columns.
    pub closed spec fn spec_columns(&self) -> Seq<ColumnMetadata> {
        self.columns@
    }

    /// A cursor over the rows of an EXECUTE reply.
    pub fn new(
        columns: Vec<ColumnMetadata>,
        cursor_id: u32,
        rows: Vec<Row>,
        more_rows: bool,
        fetch_size: u32,
    ) -> (r: Cursor)
        ensures
            r.spec_buffer() == rows@,
            r.spec_more_rows() == more_rows,
            r.spec_cursor_id() == cursor_id,
            r.spec_fetch_size() == fetch_size,
            r.spec_rows_fetched() == rows@.len(),
            r.spec_columns() == columns@,
    {
        let n = rows.len() as u64;
        let mut buffer: VecDeque<Row> = VecDeque::new();
        let mut rows = rows;
        let ghost all = rows@;
        let mut taken: Vec<Row> = Vec::new();
        while rows.len() > 0
            invariant
                all == rows@ + taken@.reverse(),
            decreases rows@.len(),
        {
            let r = rows.pop().unwrap();
            taken.push(r);
            assert(all =~= rows@ + taken@.reverse());
        }
        proof {
            assert(all =~= taken@.reverse());
        }
        while taken.len() > 0
            invariant
                all == buffer@ + taken@.reverse(),
            decreases taken@.len(),
        {
            let ghost before = taken@;
            let r = taken.pop().unwrap();
            buffer.push_back(r);
            assert(all =~= buffer@ + taken@.reverse());
        }
        assert(buffer@ =~= all);
        Cursor { columns, cursor_id, buffer, more_rows, fetch_size, rows_fetched: n }
    }

    /// The described columns.
    pub fn columns(&self) -> (r: &[ColumnMetadata])
        ensures
            r@ == self.spec_columns(),
    {
        self.columns.as_slice()
    }

    /// The column names in order.
    pub fn column_names(&self) -> (r: Vec<String>)
        ensures
            r@.len() == self.spec_columns().len(),
            forall|i: int| 0 <= i < r@.len() ==> #[trigger] r@[i] == self.spec_columns()[i].name,
    {
        let mut out: Vec<String> = Vec::new();
        let mut i: usize = 0;
        while i < self.columns.len()
            invariant
                i <= self.columns@.len(),
                out@.len() == i,
                forall|k: int| 0 <= k < i ==> #[trigger] out@[k] == self.columns@[k].name,
            decreases self.columns@.len() - i,
        {
            out.push(self.columns[i].name.clone());
            i = i + 1;
        }
        out
    }

    /// Number of columns.
    pub fn num_columns(&self) -> (r: usize)
        ensures
            r == self.spec_columns().len(),
    {
        self.columns.len()
    }

    /// The server's cursor id; 0 once closed.
    pub fn cursor_id(&self) -> (r: u32)
        ensures
            r == self.spec_cursor_id(),
    {
        self.cursor_id
    }

    /// Rows remain, buffered or on the server.
    pub fn has_more(&self) -> (r: bool)
        ensures
            r == (self.spec_buffer().len() > 0 || self.spec_more_rows()),
    {
        self.buffer.len() > 0 || self.more_rows
    }

    /// No rows remain anywhere.
    pub fn is_exhausted(&self) -> (r: bool)
        ensures
            r == (self.spec_buffer().len() == 0 && !self.spec_more_rows()),
    {
        self.buffer.len() == 0 && !self.more_rows
    }

    /// Rows buffered and not yet taken.
    pub fn buffered_count(&self) -> (r: usize)
        ensures
            r == self.spec_buffer().len(),
    {
        self.buffer.len()
    }

    /// Rows received so far.
    pub fn rows_fetched(&self) -> (r: u64)
        ensures
            r == self.spec_rows_fetched(),
    {
        self.rows_fetched
    }

    /// Rows asked for per FETCH.
    pub fn fetch_size(&self) -> (r: u32)
        ensures
            r == self.spec_fetch_size(),
    {
        self.fetch_size
    }

    /// Changes the rows asked for per FETCH.
    pub fn set_fetch_size(&mut self, size: u32)
        ensures
            final(self).spec_fetch_size() == size,
            final(self).spec_buffer() == old(self).spec_buffer(),
            final(self).spec_more_rows() == old(self).spec_more_rows(),
            final(self).spec_cursor_id() == old(self).spec_cursor_id(),
            final(self).spec_rows_fetched() == old(self).spec_rows_fetched(),
    {
        self.fetch_size = size;
    }

    /// Takes the next buffered row.
    pub fn take_buffered(&mut self) -> (r: Option<Row>)
        ensures
            old(self).spec_buffer().len() == 0 ==> r is None && final(self).spec_buffer()
                == old(self).spec_buffer(),
            old(self).spec_buffer().len() > 0 ==> r == Some(old(self).spec_buffer()[0])
                && final(self).spec_buffer() == old(self).spec_buffer().drop_first(),
            final(self).spec_more_rows() == old(self).spec_more_rows(),
            final(self).spec_cursor_id() == old(self).spec_cursor_id(),
            final(self).spec_rows_fetched() == old(self).spec_rows_fetched(),
            final(self).spec_fetch_size() == old(self).spec_fetch_size(),
    {
        self.buffer.pop_front()
    }

    /// Takes every buffered row, in order.
    pub fn collect_buffered(&mut self) -> (r: Vec<Row>)
        ensures
            r@ == old(self).spec_buffer(),
            final(self).spec_buffer().len() == 0,
            final(self).spec_more_rows() == old(self).spec_more_rows(),
            final(self).spec_cursor_id() == old(self).spec_cursor_id(),
            final(self).spec_rows_fetched() == old(self).spec_rows_fetched(),
    {
        let mut out: Vec<Row> = Vec::new();
        while self.buffer.len() > 0
            invariant
                old(self).spec_buffer() == out@ + self.buffer@,
                self.more_rows == old(self).more_rows,
                self.cursor_id == old(self).cursor_id,
                self.rows_fetched == old(self).rows_fetched,
            decreases self.buffer@.len(),
        {
            let ghost before = self.buffer@;
            let r = self.buffer.pop_front().unwrap();
            out.push(r);
            assert(old(self).spec_buffer() =~= out@ + self.buffer@);
        }
        assert(out@ =~= old(self).spec_buffer());
        out
    }

    /// Takes every buffered row, in order.
    pub fn drain_buffer(&mut self) -> (r: Vec<Row>)
        ensures
            r@ == old(self).spec_buffer(),
            final(self).spec_buffer().len() == 0,
            final(self).spec_more_rows() == old(self).spec_more_rows(),
    {
        self.collect_buffered()
    }

    /// Appends the rows of a reply and records whether the server holds more.
    pub fn add_rows(&mut self, rows: Vec<Row>, more_rows: bool)
        ensures
            final(self).spec_buffer() == old(self).spec_buffer() + rows@,
            final(self).spec_more_rows() == more_rows,
            final(self).spec_cursor_id() == old(self).spec_cursor_id(),
            final(self).spec_rows_fetched() as int == if old(self).spec_rows_fetched() + rows@.len()
                <= u64::MAX {
                old(self).spec_rows_fetched() + rows@.len()
            } else {
                u64::MAX as int
            },
            final(self).spec_fetch_size() == old(self).spec_fetch_size(),
    {
        let n = rows.len();
        assert(n as u64 == n);
        if n as u64 <= u64::MAX - self.rows_fetched {
            self.rows_fetched = self.rows_fetched + n as u64;
        } else {
            self.rows_fetched = u64::MAX;
        }
        let ghost rf = self.rows_fetched;
        let ghost start = self.buffer@;
        let mut rows = rows;
        let mut rev: Vec<Row> = Vec::new();
        let ghost all = rows@;
        while rows.len() > 0
            invariant
                all == rows@ + rev@.reverse(),
            decreases rows@.len(),
        {
            let r = rows.pop().unwrap();
            rev.push(r);
            assert(all =~= rows@ + rev@.reverse());
        }
        while rev.len() > 0
            invariant
                self.buffer@ + rev@.reverse() == start + all,
                self.cursor_id == old(self).cursor_id,
                self.fetch_size == old(self).fetch_size,
                self.rows_fetched == rf,
            decreases rev@.len(),
        {
            let r = rev.pop().unwrap();
            self.buffer.push_back(r);
            assert(self.buffer@ + rev@.reverse() =~= start + all);
        }
        assert(self.buffer@ =~= start + all);
        self.more_rows = more_rows;
    }

    /// The server holds more rows.
    pub fn more_rows(&self) -> (r: bool)
        ensures
            r == self.spec_more_rows(),
    {
        self.more_rows
    }

    /// Records that the server holds no more rows.
    pub fn set_no_more_rows(&mut self)
        ensures
            !final(self).spec_more_rows(),
            final(self).spec_buffer() == old(self).spec_buffer(),
            final(self).spec_cursor_id() == old(self).spec_cursor_id(),
    {
        self.more_rows = false;
    }

    /// The buffer is empty and the server holds more rows.
    pub fn needs_fetch(&self) -> (r: bool)
        ensures
            r == (self.spec_buffer().len() == 0 && self.spec_more_rows()),
    {
        self.buffer.len() == 0 && self.more_rows
    }

    /// The cursor id and batch size of the next FETCH.
    pub fn fetch_params(&self) -> (r: (u32, u32))
        ensures
            r == (self.spec_cursor_id(), self.spec_fetch_size()),
    {
        (self.cursor_id, self.fetch_size)
    }

    /// Decides the next step: a buffered row; else, with more rows on the
    /// server, a FETCH on the same cursor; else the end, closing the cursor.
    pub fn next_step(&mut self) -> (r: CursorStep)
        ensures
            old(self).spec_buffer().len() > 0 ==> r == CursorStep::Row(old(self).spec_buffer()[0])
                && final(self).spec_buffer() == old(self).spec_buffer().drop_first()
                && final(self).spec_cursor_id() == old(self).spec_cursor_id(),
            old(self).spec_buffer().len() == 0 && old(self).spec_more_rows() ==> r is Fetch
                && r->Fetch_0.cursor_id == old(self).spec_cursor_id() && r->Fetch_0.fetch_size
                == old(self).spec_fetch_size() && final(self).spec_buffer().len() == 0
                && final(self).spec_cursor_id() == old(self).spec_cursor_id(),
            old(self).spec_buffer().len() == 0 && !old(self).spec_more_rows() ==> r is Done
                && final(self).spec_cursor_id() == 0 && final(self).spec_buffer().len() == 0,
            final(self).spec_more_rows() == old(self).spec_more_rows(),
            final(self).spec_rows_fetched() == old(self).spec_rows_fetched(),
            final(self).spec_fetch_size() == old(self).spec_fetch_size(),
    {
        match self.buffer.pop_front() {
            Some(row) => CursorStep::Row(row),
            None => if self.more_rows {
                CursorStep::Fetch(FetchMessage::new(self.cursor_id, self.fetch_size))
            } else {
                self.cursor_id = 0;
                CursorStep::Done
            },
        }
    }

    /// Takes a FETCH reply: a server error fails the statement; otherwise its
    /// rows are buffered and more rows remain exactly when it ended without
    /// error (1403 ends the cursor).
    pub fn on_fetch_response(&mut self, resp: FetchResponse) -> (r: Result<(), Error>)
        ensures
            is_failure(resp.error_info) ==> r is Err && r->Err_0 is Oracle && r->Err_0->Oracle_code
                == resp.error_info.error_num && final(self).spec_buffer() == old(self).spec_buffer(),
            !is_failure(resp.error_info) ==> r is Ok && final(self).spec_buffer() == old(
                self,
            ).spec_buffer() + resp.rows@ && final(self).spec_more_rows() == (resp.error_info.error_num
                == 0),
            final(self).spec_cursor_id() == old(self).spec_cursor_id(),
    {
        let e = resp.error_info.error_num;
        if e != 0 && e != TNS_ERR_NO_DATA_FOUND {
            return Err(failure_of(resp.error_info));
        }
        self.add_rows(resp.rows, e == 0);
        Ok(())
    }
}

/// The reply to a define-redescribe, as an EXECUTE reply: the columns of the
/// first reply, the rows and error facts of the define reply, and the first
/// reply's cursor id when the define reply names none.
pub fn merge_define_reply(first: ExecuteResponse, define: FetchResponse) -> (r: ExecuteResponse)
    ensures
        r.columns@ == first.columns@,
        r.rows@ == define.rows@,
        r.more_rows == define.more_rows,
        r.error_info.error_num == define.error_info.error_num,
        r.error_info.row_count == define.error_info.row_count,
        r.error_info.message == define.error_info.message,
        r.error_info.cursor_id == (if define.error_info.cursor_id == 0 {
            first.error_info.cursor_id
        } else {
            define.error_info.cursor_id
        }),
{
    let mut error_info = define.error_info;
    if error_info.cursor_id == 0 {
        error_info.cursor_id = first.error_info.cursor_id;
    }
    ExecuteResponse { columns: first.columns, rows: define.rows, error_info, more_rows: define.more_rows }
}

/// Opens a cursor on an EXECUTE reply, unless the server reported an error.
/// The cursor id is the one the reply assigned; more rows follow exactly
/// when the reply says so.
pub fn cursor_from_execute(resp: ExecuteResponse, fetch_size: u32) -> (r: Result<Cursor, Error>)
    ensures
        is_failure(resp.error_info) ==> r is Err && r->Err_0 is Oracle && r->Err_0->Oracle_code
            == resp.error_info.error_num,
        !is_failure(resp.error_info) ==> r is Ok && r->Ok_0.spec_buffer() == resp.rows@
            && r->Ok_0.spec_more_rows() == resp.more_rows && r->Ok_0.spec_cursor_id()
            == resp.error_info.cursor_id && r->Ok_0.spec_fetch_size() == fetch_size,
{
    let e = resp.error_info.error_num;
    if e != 0 && e != TNS_ERR_NO_DATA_FOUND {
        return Err(failure_of(resp.error_info));
    }
    let cursor_id = resp.error_info.cursor_id as u32;
    Ok(Cursor::new(resp.columns, cursor_id, resp.rows, resp.more_rows, fetch_size))
}

} // verus!
