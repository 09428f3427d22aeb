//! Batched log ingestion.
//!
//! Worker log lines are buffered in memory; once the buffer reaches its
//! threshold the batch is handed back for one bulk insert and the buffer
//! starts over.  Logs are best effort: a failed insert is not retried, so
//! the buffer never holds a batch that was already handed out.  The bulk
//! statement's text — one parameter tuple per row — is computed here.

use vstd::prelude::*;
use vstd::string::StringExecFns;
use crate::strutil::{dec_digits, u64_to_dec};

verus! {

/// A log severity, as the runtime reports it.
pub enum LogLevel {
    Info,
    Trace,
    Debug,
    Error,
    Warn,
    Critical,
}

/// The level's column text.
pub open spec fn level_name_spec(level: LogLevel) -> Seq<char> {
    match level {
        LogLevel::Info => "INFO"@,
        LogLevel::Trace => "TRACE"@,
        LogLevel::Debug => "DEBUG"@,
        LogLevel::Error => "ERROR"@,
        LogLevel::Warn => "WARN"@,
        LogLevel::Critical => "CRITICAL"@,
    }
}

/// Renders a level for the log table.
pub fn level_name(level: LogLevel) -> (r: String)
    ensures
        r@ == level_name_spec(level),
{
    match level {
        LogLevel::Info => String::from_str("INFO"),
        LogLevel::Trace => String::from_str("TRACE"),
        LogLevel::Debug => String::from_str("DEBUG"),
        LogLevel::Error => String::from_str("ERROR"),
        LogLevel::Warn => String::from_str("WARN"),
        LogLevel::Critical => String::from_str("CRITICAL"),
    }
}

/// One buffered log line.
pub struct LogRow {
    /// When the line was logged, as milliseconds of the system clock.
    pub timestamp_ms: u64,
    pub worker: String,
    pub level: String,
    pub context: String,
    pub message: String,
}

/// The in-memory buffer of log lines awaiting their bulk insert.
pub struct LogBuffer {
    rows: Vec<LogRow>,
    threshold: usize,
}

impl LogBuffer {
    /// The buffered rows, oldest first.
    pub closed spec fn rows_seq(&self) -> Seq<LogRow> {
        self.rows@
    }

    /// How many rows trigger a flush.
    pub closed spec fn flush_threshold(&self) -> usize {
        self.threshold
    }

    /// The buffer never reaches its threshold between calls.
    pub closed spec fn wf(&self) -> bool {
        self.threshold >= 1 && self.rows@.len() < self.threshold
    }

    /// An empty buffer flushing at `threshold` rows.
    pub fn new(threshold: usize) -> (r: Self)
        requires
            threshold >= 1,
        ensures
            r.wf(),
            r.flush_threshold() == threshold,
            r.rows_seq() == Seq::<LogRow>::empty(),
    {
        LogBuffer { rows: Vec::new(), threshold }
    }

    /// Buffers one line.  When that fills the buffer to its threshold, the
    /// whole batch — the buffered rows with this line last — is handed
    /// back for insertion and the buffer empties; otherwise the line just
    /// joins the buffer.
    pub fn log(&mut self, row: LogRow) -> (flushed: Option<Vec<LogRow>>)
        requires
            old(self).wf(),
        ensures
            final(self).wf(),
            final(self).flush_threshold() == old(self).flush_threshold(),
            if old(self).rows_seq().len() + 1 >= old(self).flush_threshold() {
                (flushed matches Some(batch) && batch@ == old(self).rows_seq().push(row))
                    && final(self).rows_seq() == Seq::<LogRow>::empty()
            } else {
                flushed is None && final(self).rows_seq() == old(self).rows_seq().push(row)
            },
    {
        self.rows.push(row);
        if self.rows.len() >= self.threshold {
            let mut batch: Vec<LogRow> = Vec::new();
            core::mem::swap(&mut self.rows, &mut batch);
            Some(batch)
        } else {
            None
        }
    }
}

impl LogBuffer {
    /// Hands back whatever is buffered and empties the buffer: the
    /// shutdown flush, which is the caller's responsibility.
    pub fn drain(&mut self) -> (rows: Vec<LogRow>)
        requires
            old(self).wf(),
        ensures
            final(self).wf(),
            final(self).flush_threshold() == old(self).flush_threshold(),
            rows@ == old(self).rows_seq(),
            final(self).rows_seq() == Seq::<LogRow>::empty(),
    {
        let mut rows: Vec<LogRow> = Vec::new();
        core::mem::swap(&mut self.rows, &mut rows);
        rows
    }
}

/// The statement head naming the table and columns.
pub open spec fn insert_head() -> Seq<char> {
    "INSERT INTO logs (timestamp, worker, level, context, message) VALUES "@
}

/// The parameter tuple for row `i`: five placeholders with their column
/// types, numbered from `5 i + 1`.
pub open spec fn tuple_spec(i: nat) -> Seq<char> {
    "($"@ + dec_digits(5 * i + 1) + "::TIMESTAMPTZ, $"@ + dec_digits(5 * i + 2) + "::TEXT, $"@
        + dec_digits(5 * i + 3) + "::TEXT, $"@ + dec_digits(5 * i + 4) + "::TEXT, $"@
        + dec_digits(5 * i + 5) + "::TEXT)"@
}

/// The parameter tuples for `n` rows, comma-separated.
pub open spec fn tuples_spec(n: nat) -> Seq<char>
    decreases n,
{
    if n == 0 {
        Seq::empty()
    } else if n == 1 {
        tuple_spec(0)
    } else {
        tuples_spec((n - 1) as nat) + ","@ + tuple_spec((n - 1) as nat)
    }
}

/// The full bulk-insert statement for `n` rows.
pub open spec fn bulk_insert_spec(n: nat) -> Seq<char> {
    insert_head() + tuples_spec(n)
}

/// Appends the parameter tuple for row `i` onto `s`.
fn append_tuple(s: &mut String, i: u64)
    requires
        5 * i + 5 <= u64::MAX,
    ensures
        final(s)@ == old(s)@ + tuple_spec(i as nat),
{
    s.append("($");
    let d1 = u64_to_dec(5 * i + 1);
    s.append(d1.as_str());
    s.append("::TIMESTAMPTZ, $");
    let d2 = u64_to_dec(5 * i + 2);
    s.append(d2.as_str());
    s.append("::TEXT, $");
    let d3 = u64_to_dec(5 * i + 3);
    s.append(d3.as_str());
    s.append("::TEXT, $");
    let d4 = u64_to_dec(5 * i + 4);
    s.append(d4.as_str());
    s.append("::TEXT, $");
    let d5 = u64_to_dec(5 * i + 5);
    s.append(d5.as_str());
    s.append("::TEXT)");
    proof {
        assert(s@ =~= old(s)@ + tuple_spec(i as nat));
    }
}

/// Builds the bulk-insert statement for `n` rows.  The parameter count is
/// capped by the database protocol's sixteen-bit parameter counter.
pub fn bulk_insert_statement(n: usize) -> (r: String)
    requires
        5 * n + 5 <= 65535,
    ensures
        r@ == bulk_insert_spec(n as nat),
{
    let mut s = String::from_str(
        "INSERT INTO logs (timestamp, worker, level, context, message) VALUES ",
    );
    let mut i: usize = 0;
    while i < n
        invariant
            0 <= i <= n,
            5 * n + 5 <= 65535,
            s@ == insert_head() + tuples_spec(i as nat),
        decreases n - i,
    {
        if i > 0 {
            s.append(",");
        }
        append_tuple(&mut s, i as u64);
        proof {
            assert(s@ =~= insert_head() + tuples_spec((i + 1) as nat));
        }
        i = i + 1;
    }
    s
}

} // verus!
