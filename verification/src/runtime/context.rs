//! Per-job state: the streamed-result ordering rules, the `cost.budget`
//! counters and the `model.use` check.

use vstd::prelude::*;

use crate::envelope::Envelope;
use crate::decimal::{decimal, micros_text, u64_decimal};
use crate::error::{error_code, error_detail, ARCPError, ErrorCode};
use crate::ids::{JobId, MessageId, SessionId};
use crate::messages::execution::{JobResultChunkPayload, ResultChunkEncoding};
use crate::messages::permissions::{glob_matches, micros_to_text, model_use_permits, CostBudget, LeaseRequest};
use crate::messages::{MessageType, MetricPayload};
use crate::text::str_eq;

verus! {

broadcast use vstd::string::group_string_axioms;

/// Largest `data` of a single `job.result_chunk`, in bytes (1 MiB).
pub const MAX_RESULT_CHUNK_BYTES: usize = 1048576;

/// Largest assembled streamed result, in bytes (256 MiB).
pub const MAX_RESULT_TOTAL_BYTES: usize = 268435456;

// ---------------------------------------------------------------------
// Streamed results
// ---------------------------------------------------------------------

/// The stream of one result id, once its first chunk was accepted.
#[derive(Debug)]
struct ActiveResultStream {
    result_id: String,
    next_seq: u64,
    finished: bool,
    total_bytes: usize,
}

/// Mathematical form of an active result stream.
pub struct ResultStreamView {
    /// The stream's result id.
    pub result_id: Seq<char>,
    /// The `chunk_seq` the next chunk must carry.
    pub next_seq: u64,
    /// The terminal (`more: false`) chunk was accepted.
    pub finished: bool,
    /// Bytes accepted so far.
    pub total_bytes: nat,
}

/// Per-job state of a `job.result_chunk` stream.
///
/// The first chunk must have `chunk_seq == 0`, later ones must follow one
/// by one under the same `result_id`, nothing may follow the terminal
/// chunk, and per-chunk and total size caps hold.
#[derive(Debug)]
pub struct ResultStreamState {
    active: Option<ActiveResultStream>,
}

impl View for ResultStreamState {
    type V = Option<ResultStreamView>;

    closed spec fn view(&self) -> Option<ResultStreamView> {
        match self.active {
            Some(a) => Some(
                ResultStreamView {
                    result_id: a.result_id@,
                    next_seq: a.next_seq,
                    finished: a.finished,
                    total_bytes: a.total_bytes as nat,
                },
            ),
            None => None,
        }
    }
}

/// What one chunk does to the stream: the next stream, or the code of the
/// error that rejects it (the stream is then left as it was).
pub open spec fn chunk_step(
    st: Option<ResultStreamView>,
    result_id: Seq<char>,
    chunk_seq: u64,
    data_len: nat,
    more: bool,
) -> Result<ResultStreamView, ErrorCode> {
    if result_id.len() == 0 {
        Err(ErrorCode::InvalidRequest)
    } else if data_len > MAX_RESULT_CHUNK_BYTES {
        Err(ErrorCode::Internal)
    } else {
        match st {
            None => if chunk_seq != 0 {
                Err(ErrorCode::FailedPrecondition)
            } else {
                Ok(ResultStreamView { result_id, next_seq: 1, finished: !more, total_bytes: data_len })
            },
            Some(s) => if s.finished {
                Err(ErrorCode::FailedPrecondition)
            } else if result_id != s.result_id {
                Err(ErrorCode::FailedPrecondition)
            } else if chunk_seq != s.next_seq {
                Err(ErrorCode::OutOfRange)
            } else if s.total_bytes + data_len > MAX_RESULT_TOTAL_BYTES {
                Err(ErrorCode::Internal)
            } else {
                Ok(
                    ResultStreamView {
                        result_id,
                        next_seq: (s.next_seq + 1) as u64,
                        finished: !more,
                        total_bytes: s.total_bytes + data_len,
                    },
                )
            },
        }
    }
}

/// The text that comes with each rejection of [`chunk_step`]; it names the
/// offending values.
pub open spec fn chunk_error_detail(
    st: Option<ResultStreamView>,
    result_id: Seq<char>,
    chunk_seq: u64,
    data_len: nat,
) -> Seq<char> {
    if result_id.len() == 0 {
        "job.result_chunk result_id must be non-empty"@
    } else if data_len > MAX_RESULT_CHUNK_BYTES {
        "job.result_chunk exceeds the per-chunk size cap ("@ + decimal(data_len) + " > "@ + decimal(
            MAX_RESULT_CHUNK_BYTES as nat,
        ) + " bytes)"@
    } else {
        match st {
            None => "the first job.result_chunk must have chunk_seq 0, got "@ + decimal(
                chunk_seq as nat,
            ),
            Some(s) => if s.finished {
                "job.result_chunk emitted after the terminal (more: false) chunk"@
            } else if result_id != s.result_id {
                "job.result_chunk result_id changed mid-stream (expected "@ + s.result_id
                    + ", got "@ + result_id + ")"@
            } else if chunk_seq != s.next_seq {
                "job.result_chunk out of order: expected chunk_seq "@ + decimal(s.next_seq as nat)
                    + ", got "@ + decimal(chunk_seq as nat)
            } else {
                "streamed result exceeds the total size cap ("@ + decimal(s.total_bytes + data_len)
                    + " > "@ + decimal(MAX_RESULT_TOTAL_BYTES as nat) + " bytes)"@
            },
        }
    }
}

/// The one input on which the sequence counter would pass `u64::MAX`: a
/// chunk that would be accepted with sequence `u64::MAX`.
pub open spec fn chunk_counter_overflows(
    st: Option<ResultStreamView>,
    result_id: Seq<char>,
    chunk_seq: u64,
    data_len: nat,
    more: bool,
) -> bool {
    &&& st matches Some(s) && s.next_seq == u64::MAX && chunk_seq == u64::MAX
    &&& chunk_step(st, result_id, chunk_seq, data_len, more) is Ok
}

impl ResultStreamState {
    /// The state's invariant: a started stream has a non-empty id, a
    /// positive next sequence and a total within the cap.
    pub closed spec fn wf(&self) -> bool {
        match self.active {
            Some(a) => a.result_id@.len() > 0 && a.next_seq >= 1 && a.total_bytes
                <= MAX_RESULT_TOTAL_BYTES,
            None => true,
        }
    }

    /// A state with no stream started.
    pub fn new() -> (s: Self)
        ensures
            s.wf(),
            s@ is None,
    {
        ResultStreamState { active: None }
    }

    /// The `result_id` of the stream that has been started, if any.
    pub fn active_result_id(&self) -> (r: Option<&str>)
        ensures
            match self@ {
                Some(s) => r matches Some(id) && id@ == s.result_id,
                None => r is None,
            },
    {
        match &self.active {
            Some(a) => Some(a.result_id.as_str()),
            None => None,
        }
    }

    /// True once the terminal (`more: false`) chunk has been accepted.
    pub fn is_finished(&self) -> (r: bool)
        ensures
            r == (self@ matches Some(s) && s.finished),
    {
        match &self.active {
            Some(a) => a.finished,
            None => false,
        }
    }

    /// True on the one chunk that [`Self::record_chunk`] cannot take: one it
    /// would accept with sequence `u64::MAX`, past which the counter has no
    /// room.
    pub fn exhausts_counter(&self, result_id: &str, chunk_seq: u64, data_len: usize, more: bool) -> (r: bool)
        requires
            self.wf(),
        ensures
            r == chunk_counter_overflows(self@, result_id@, chunk_seq, data_len as nat, more),
    {
        match &self.active {
            None => false,
            Some(a) => {
                a.next_seq == u64::MAX && chunk_seq == u64::MAX && !a.finished && !result_id.is_empty()
                    && data_len <= MAX_RESULT_CHUNK_BYTES && str_eq(result_id, a.result_id.as_str())
                    && data_len <= MAX_RESULT_TOTAL_BYTES - a.total_bytes
            },
        }
    }

    /// Validate and record one chunk; see [`chunk_step`] for when each
    /// error comes. A rejected chunk leaves the state unchanged.
    pub fn record_chunk(&mut self, result_id: &str, chunk_seq: u64, data_len: usize, more: bool) -> (r:
        Result<(), ARCPError>)
        requires
            old(self).wf(),
            !chunk_counter_overflows(old(self)@, result_id@, chunk_seq, data_len as nat, more),
        ensures
            final(self).wf(),
            match chunk_step(old(self)@, result_id@, chunk_seq, data_len as nat, more) {
                Ok(next) => r is Ok && final(self)@ == Some(next),
                Err(code) => r matches Err(e) && error_code(e) == code && error_detail(e)
                    == chunk_error_detail(old(self)@, result_id@, chunk_seq, data_len as nat)
                    && final(self)@ == old(self)@,
            },
    {
        if result_id.is_empty() {
            return Err(
                ARCPError::InvalidRequest { detail: "job.result_chunk result_id must be non-empty".to_owned() },
            );
        }
        if data_len > MAX_RESULT_CHUNK_BYTES {
            let mut detail = "job.result_chunk exceeds the per-chunk size cap (".to_owned();
            detail.append(u64_decimal(data_len as u64).as_str());
            detail.append(" > ");
            detail.append(u64_decimal(MAX_RESULT_CHUNK_BYTES as u64).as_str());
            detail.append(" bytes)");
            return Err(ARCPError::Internal { detail });
        }
        let (next_seq, total_bytes) = match &self.active {
            None => {
                if chunk_seq != 0 {
                    let mut detail = "the first job.result_chunk must have chunk_seq 0, got ".to_owned();
                    detail.append(u64_decimal(chunk_seq).as_str());
                    return Err(ARCPError::FailedPrecondition { detail });
                }
                (0u64, 0usize)
            },
            Some(stream) => {
                if stream.finished {
                    return Err(
                        ARCPError::FailedPrecondition {
                            detail: "job.result_chunk emitted after the terminal (more: false) chunk".to_owned(),
                        },
                    );
                }
                if !str_eq(result_id, stream.result_id.as_str()) {
                    let mut detail = "job.result_chunk result_id changed mid-stream (expected ".to_owned();
                    detail.append(stream.result_id.as_str());
                    detail.append(", got ");
                    detail.append(result_id);
                    detail.append(")");
                    return Err(ARCPError::FailedPrecondition { detail });
                }
                if chunk_seq != stream.next_seq {
                    let mut detail = "job.result_chunk out of order: expected chunk_seq ".to_owned();
                    detail.append(u64_decimal(stream.next_seq).as_str());
                    detail.append(", got ");
                    detail.append(u64_decimal(chunk_seq).as_str());
                    return Err(ARCPError::OutOfRange { detail });
                }
                if data_len > MAX_RESULT_TOTAL_BYTES - stream.total_bytes {
                    let mut detail = "streamed result exceeds the total size cap (".to_owned();
                    detail.append(u64_decimal((stream.total_bytes + data_len) as u64).as_str());
                    detail.append(" > ");
                    detail.append(u64_decimal(MAX_RESULT_TOTAL_BYTES as u64).as_str());
                    detail.append(" bytes)");
                    return Err(ARCPError::Internal { detail });
                }
                (stream.next_seq, stream.total_bytes)
            },
        };
        self.active = Some(
            ActiveResultStream {
                result_id: result_id.to_owned(),
                next_seq: next_seq + 1,
                finished: !more,
                total_bytes: total_bytes + data_len,
            },
        );
        Ok(())
    }
}

/// The ordering rules of a streamed result: nothing follows the terminal
/// chunk; an accepted chunk is the first (sequence 0) or the next one of
/// the same result id; the total never exceeds its cap.
pub proof fn lemma_chunk_order(
    st: Option<ResultStreamView>,
    result_id: Seq<char>,
    chunk_seq: u64,
    data_len: nat,
    more: bool,
)
    requires
        st matches Some(s) ==> s.total_bytes <= MAX_RESULT_TOTAL_BYTES,
        !chunk_counter_overflows(st, result_id, chunk_seq, data_len, more),
    ensures
        (st matches Some(s) && s.finished) ==> chunk_step(st, result_id, chunk_seq, data_len, more) is Err,
        chunk_step(st, result_id, chunk_seq, data_len, more) matches Ok(next) ==> {
            &&& next.result_id == result_id
            &&& next.total_bytes <= MAX_RESULT_TOTAL_BYTES
            &&& next.finished == !more
            &&& match st {
                None => chunk_seq == 0 && next.next_seq == 1,
                Some(s) => chunk_seq == s.next_seq && result_id == s.result_id && next.next_seq
                    == s.next_seq + 1,
            }
        },
{
}

// ---------------------------------------------------------------------
// `cost.budget` counters
// ---------------------------------------------------------------------

/// One tracked currency: its maximum and what was charged, in micro-units.
#[derive(Debug, Clone)]
struct BudgetEntry {
    currency: String,
    max_micros: u64,
    consumed_micros: u64,
}

/// Per-job `cost.budget` counters, in micro-units (millionths of a
/// currency unit) so that comparisons at the exhaustion boundary are exact.
///
/// A charge that would overspend a currency is refused and leaves every
/// counter as it was; currencies outside the declared budget are not
/// enforced.
#[derive(Debug, Clone)]
pub struct BudgetTracker {
    entries: Vec<BudgetEntry>,
}

/// The declared maximum of `currency` in `amounts`: later entries override
/// earlier ones.
pub open spec fn last_amount(amounts: Seq<(Seq<char>, u64)>, currency: Seq<char>) -> Option<u64>
    decreases amounts.len(),
{
    if amounts.len() == 0 {
        None
    } else if amounts.last().0 == currency {
        Some(amounts.last().1)
    } else {
        last_amount(amounts.drop_last(), currency)
    }
}

/// The counters a budget starts with: each declared currency at its
/// (last) maximum with nothing consumed.
pub open spec fn fresh_counters(amounts: Seq<(Seq<char>, u64)>) -> Map<Seq<char>, (u64, u64)> {
    Map::new(
        |c: Seq<char>| last_amount(amounts, c) is Some,
        |c: Seq<char>| (last_amount(amounts, c)->0, 0u64),
    )
}

/// Outcome of a charge of `amount` to `currency` against `counters`:
/// `Ok(None)` for an untracked currency, `Ok(Some(left))` with what is
/// left after the charge, or `Err(())` when nothing is left before the
/// charge (whatever its amount, zero too) or it would overspend.
pub open spec fn charge_outcome(
    counters: Map<Seq<char>, (u64, u64)>,
    currency: Seq<char>,
    amount: u64,
) -> Result<Option<u64>, ()> {
    if !counters.contains_key(currency) {
        Ok(None)
    } else {
        let (max, used) = counters[currency];
        if max - used <= 0 || amount > max - used {
            Err(())
        } else {
            Ok(Some((max - used - amount) as u64))
        }
    }
}

/// The text of a refused charge: the currency, what was left and what was
/// attempted, both as amounts.
pub open spec fn charge_refusal_detail(
    counters: Map<Seq<char>, (u64, u64)>,
    currency: Seq<char>,
    amount: u64,
) -> Seq<char> {
    let (max, used) = counters[currency];
    currency + " budget exhausted (remaining="@ + micros_text((max - used) as nat) + ", attempted="@
        + micros_text(amount as nat) + ")"@
}

/// The counters after a charge (unchanged when it is refused or the
/// currency is untracked).
pub open spec fn charged(counters: Map<Seq<char>, (u64, u64)>, currency: Seq<char>, amount: u64) -> Map<
    Seq<char>,
    (u64, u64),
> {
    match charge_outcome(counters, currency, amount) {
        Ok(Some(_)) => counters.insert(
            currency,
            (counters[currency].0, (counters[currency].1 + amount) as u64),
        ),
        _ => counters,
    }
}

/// The counters a table of rows stands for.
pub open spec fn rows_view(rows: Seq<(Seq<char>, u64, u64)>) -> Map<Seq<char>, (u64, u64)> {
    Map::new(
        |c: Seq<char>| exists|i: int| 0 <= i < rows.len() && #[trigger] rows[i].0 == c,
        |c: Seq<char>| {
            let i = choose|i: int| 0 <= i < rows.len() && #[trigger] rows[i].0 == c;
            (rows[i].1, rows[i].2)
        },
    )
}

/// A table of rows is well formed: one row per currency, none overspent.
pub open spec fn rows_wf(rows: Seq<(Seq<char>, u64, u64)>) -> bool {
    &&& forall|i: int, j: int| 0 <= i < j < rows.len() ==> #[trigger] rows[i].0 != #[trigger] rows[j].0
    &&& forall|i: int| 0 <= i < rows.len() ==> #[trigger] rows[i].2 <= rows[i].1
}

proof fn lemma_rows_entry(rows: Seq<(Seq<char>, u64, u64)>, i: int)
    requires
        rows_wf(rows),
        0 <= i < rows.len(),
    ensures
        rows_view(rows).contains_key(rows[i].0),
        rows_view(rows)[rows[i].0] == (rows[i].1, rows[i].2),
{
    let c = rows[i].0;
    assert(rows_view(rows).dom().contains(c));
    let k = choose|k: int| 0 <= k < rows.len() && #[trigger] rows[k].0 == c;
    if k != i {
        if k < i {
            assert(rows[k].0 != rows[i].0);
        } else {
            assert(rows[i].0 != rows[k].0);
        }
    }
}

proof fn lemma_rows_update(rows: Seq<(Seq<char>, u64, u64)>, i: int, row: (Seq<char>, u64, u64))
    requires
        rows_wf(rows),
        0 <= i < rows.len(),
        row.0 == rows[i].0,
        row.2 <= row.1,
    ensures
        rows_wf(rows.update(i, row)),
        rows_view(rows.update(i, row)) == rows_view(rows).insert(row.0, (row.1, row.2)),
{
    let after = rows.update(i, row);
    assert forall|x: int, y: int| 0 <= x < y < after.len() implies #[trigger] after[x].0
        != #[trigger] after[y].0 by {
        assert(rows[x].0 != rows[y].0);
    }
    assert forall|x: int| 0 <= x < after.len() implies #[trigger] after[x].2 <= after[x].1 by {
        if x != i {
            assert(rows[x].2 <= rows[x].1);
        }
    }
    assert forall|c: Seq<char>| #[trigger] rows_view(after).contains_key(c) == rows_view(
        rows,
    ).insert(row.0, (row.1, row.2)).contains_key(c) by {
        if rows_view(rows).contains_key(c) {
            let k = choose|k: int| 0 <= k < rows.len() && #[trigger] rows[k].0 == c;
            assert(after[k].0 == c);
        }
        if rows_view(after).contains_key(c) {
            let k = choose|k: int| 0 <= k < after.len() && #[trigger] after[k].0 == c;
            assert(rows[k].0 == c);
        }
    }
    assert forall|c: Seq<char>| #[trigger] rows_view(after).contains_key(c) implies rows_view(
        after,
    )[c] == rows_view(rows).insert(row.0, (row.1, row.2))[c] by {
        let k = choose|k: int| 0 <= k < after.len() && #[trigger] after[k].0 == c;
        lemma_rows_entry(after, k);
        if k != i {
            lemma_rows_entry(rows, k);
        }
    }
    assert(rows_view(after) =~= rows_view(rows).insert(row.0, (row.1, row.2)));
}

proof fn lemma_rows_push(rows: Seq<(Seq<char>, u64, u64)>, row: (Seq<char>, u64, u64))
    requires
        rows_wf(rows),
        !rows_view(rows).contains_key(row.0),
        row.2 <= row.1,
    ensures
        rows_wf(rows.push(row)),
        rows_view(rows.push(row)) == rows_view(rows).insert(row.0, (row.1, row.2)),
{
    let after = rows.push(row);
    assert forall|x: int, y: int| 0 <= x < y < after.len() implies #[trigger] after[x].0
        != #[trigger] after[y].0 by {
        if y == rows.len() {
            assert(rows[x].0 == after[x].0);
            if rows[x].0 == row.0 {
                assert(rows_view(rows).dom().contains(row.0));
            }
        } else {
            assert(rows[x].0 != rows[y].0);
        }
    }
    assert forall|x: int| 0 <= x < after.len() implies #[trigger] after[x].2 <= after[x].1 by {
        if x < rows.len() {
            assert(rows[x].2 <= rows[x].1);
        }
    }
    assert forall|c: Seq<char>| #[trigger] rows_view(after).contains_key(c) == rows_view(
        rows,
    ).insert(row.0, (row.1, row.2)).contains_key(c) by {
        if rows_view(rows).contains_key(c) {
            let k = choose|k: int| 0 <= k < rows.len() && #[trigger] rows[k].0 == c;
            assert(after[k].0 == c);
        }
        if c == row.0 {
            assert(after[rows.len() as int].0 == c);
        }
        if rows_view(after).contains_key(c) {
            let k = choose|k: int| 0 <= k < after.len() && #[trigger] after[k].0 == c;
            if k < rows.len() {
                assert(rows[k].0 == c);
            }
        }
    }
    assert forall|c: Seq<char>| #[trigger] rows_view(after).contains_key(c) implies rows_view(
        after,
    )[c] == rows_view(rows).insert(row.0, (row.1, row.2))[c] by {
        let k = choose|k: int| 0 <= k < after.len() && #[trigger] after[k].0 == c;
        lemma_rows_entry(after, k);
        if k < rows.len() {
            lemma_rows_entry(rows, k);
        }
    }
    assert(rows_view(after) =~= rows_view(rows).insert(row.0, (row.1, row.2)));
}

proof fn lemma_rows_len(rows: Seq<(Seq<char>, u64, u64)>)
    requires
        rows_wf(rows),
    ensures
        rows_view(rows).dom().finite(),
        rows_view(rows).len() == rows.len(),
    decreases rows.len(),
{
    if rows.len() == 0 {
        assert(rows_view(rows) =~= Map::<Seq<char>, (u64, u64)>::empty());
    } else {
        let init = rows.drop_last();
        let row = rows.last();
        assert(rows_wf(init)) by {
            assert forall|x: int, y: int| 0 <= x < y < init.len() implies #[trigger] init[x].0
                != #[trigger] init[y].0 by {
                assert(rows[x].0 != rows[y].0);
            }
            assert forall|x: int| 0 <= x < init.len() implies #[trigger] init[x].2 <= init[x].1 by {
                assert(rows[x].2 <= rows[x].1);
            }
        }
        lemma_rows_len(init);
        assert(!rows_view(init).contains_key(row.0)) by {
            if rows_view(init).contains_key(row.0) {
                let k = choose|k: int| 0 <= k < init.len() && #[trigger] init[k].0 == row.0;
                assert(rows[k].0 != rows[rows.len() - 1].0);
            }
        }
        assert(init.push(row) =~= rows);
        lemma_rows_push(init, row);
        assert(rows_view(rows).dom() =~= rows_view(init).dom().insert(row.0));
    }
}

proof fn lemma_fresh_counters_step(amounts: Seq<(Seq<char>, u64)>, k: int)
    requires
        0 <= k < amounts.len(),
    ensures
        fresh_counters(amounts.take(k + 1)) == fresh_counters(amounts.take(k)).insert(
            amounts[k].0,
            (amounts[k].1, 0u64),
        ),
{
    assert(amounts.take(k + 1).drop_last() =~= amounts.take(k));
    assert(fresh_counters(amounts.take(k + 1)) =~= fresh_counters(amounts.take(k)).insert(
        amounts[k].0,
        (amounts[k].1, 0u64),
    ));
}

impl BudgetTracker {
    spec fn rows(&self) -> Seq<(Seq<char>, u64, u64)> {
        self.entries@.map_values(|e: BudgetEntry| (e.currency@, e.max_micros, e.consumed_micros))
    }

    /// The counters: per tracked currency, `(max, consumed)` in micro-units.
    pub closed spec fn view(&self) -> Map<Seq<char>, (u64, u64)> {
        rows_view(self.rows())
    }

    /// Invariant: one row per currency, and no counter overspent.
    pub closed spec fn wf(&self) -> bool {
        rows_wf(self.rows())
    }

    /// No tracked counter is ever overspent.
    pub proof fn lemma_never_overspent(&self, currency: Seq<char>)
        requires
            self.wf(),
            self.view().contains_key(currency),
        ensures
            self.view()[currency].1 <= self.view()[currency].0,
    {
        let rows = self.rows();
        let i = choose|i: int| 0 <= i < rows.len() && #[trigger] rows[i].0 == currency;
        lemma_rows_entry(rows, i);
    }

    /// Find the row of `currency`.
    fn find(&self, currency: &str) -> (r: Option<usize>)
        requires
            self.wf(),
        ensures
            match r {
                Some(i) => i < self.rows().len() && self.rows()[i as int].0 == currency@,
                None => !self.view().contains_key(currency@),
            },
    {
        let mut i: usize = 0;
        while i < self.entries.len()
            invariant
                i <= self.entries.len(),
                forall|k: int| 0 <= k < i ==> self.rows()[k].0 != currency@,
            decreases self.entries.len() - i,
        {
            if str_eq(self.entries[i].currency.as_str(), currency) {
                return Some(i);
            }
            i = i + 1;
        }
        None
    }

    /// An empty tracker (no budget declared).
    pub fn new() -> (t: Self)
        ensures
            t.wf(),
            t.view() == Map::<Seq<char>, (u64, u64)>::empty(),
    {
        let t = BudgetTracker { entries: Vec::new() };
        assert(t.view() =~= Map::<Seq<char>, (u64, u64)>::empty());
        t
    }

    /// A tracker seeded from a `cost.budget`: each declared currency at its
    /// maximum with nothing consumed (a repeated currency takes its last
    /// amount).
    pub fn from_budget(budget: &CostBudget) -> (t: Self)
        ensures
            t.wf(),
            t.view() == fresh_counters(budget@),
    {
        let mut t = BudgetTracker { entries: Vec::new() };
        assert(t.view() =~= fresh_counters(budget@.take(0)));
        let mut k: usize = 0;
        while k < budget.amounts.len()
            invariant
                k <= budget.amounts.len(),
                t.wf(),
                t.view() == fresh_counters(budget@.take(k as int)),
            decreases budget.amounts.len() - k,
        {
            let a = &budget.amounts[k];
            assert(budget@[k as int] == a@);
            let ghost before = t.rows();
            let e = BudgetEntry {
                currency: a.currency.clone(),
                max_micros: a.amount_micros,
                consumed_micros: 0,
            };
            let ghost row = (a.currency@, a.amount_micros, 0u64);
            match t.find(a.currency.as_str()) {
                Some(i) => {
                    t.entries.set(i, e);
                    assert(t.rows() =~= before.update(i as int, row));
                    proof {
                        lemma_rows_update(before, i as int, row);
                    }
                },
                None => {
                    t.entries.push(e);
                    assert(t.rows() =~= before.push(row));
                    proof {
                        lemma_rows_push(before, row);
                    }
                },
            }
            proof {
                lemma_fresh_counters_step(budget@, k as int);
            }
            k = k + 1;
        }
        assert(budget@.take(budget.amounts.len() as int) =~= budget@);
        t
    }

    /// True when no currency is tracked (budgeting is disabled).
    pub fn is_disabled(&self) -> (r: bool)
        requires
            self.wf(),
        ensures
            r == self.view().is_empty(),
    {
        if self.entries.len() == 0 {
            assert(self.view() =~= Map::<Seq<char>, (u64, u64)>::empty());
            true
        } else {
            proof {
                lemma_rows_entry(self.rows(), 0);
            }
            assert(self.view().dom().contains(self.rows()[0].0));
            false
        }
    }

    /// What is left of `currency`, if it is tracked (`None`: not budgeted,
    /// so unbounded).
    pub fn remaining(&self, currency: &str) -> (r: Option<u64>)
        requires
            self.wf(),
        ensures
            match r {
                Some(left) => self.view().contains_key(currency@) && left == self.view()[currency@].0
                    - self.view()[currency@].1,
                None => !self.view().contains_key(currency@),
            },
    {
        match self.find(currency) {
            Some(i) => {
                proof {
                    lemma_rows_entry(self.rows(), i as int);
                }
                let e = &self.entries[i];
                Some(e.max_micros - e.consumed_micros)
            },
            None => None,
        }
    }

    /// What is left of every tracked currency, one pair per currency.
    pub fn snapshot_remaining(&self) -> (r: Vec<(String, u64)>)
        requires
            self.wf(),
        ensures
            r.len() == self.view().len(),
            forall|i: int|
                0 <= i < r.len() ==> self.view().contains_key(#[trigger] r@[i].0@) && r@[i].1
                    == self.view()[r@[i].0@].0 - self.view()[r@[i].0@].1,
            forall|c: Seq<char>|
                #[trigger] self.view().contains_key(c) ==> exists|i: int|
                    0 <= i < r.len() && r@[i].0@ == c,
    {
        let mut out: Vec<(String, u64)> = Vec::new();
        let mut i: usize = 0;
        while i < self.entries.len()
            invariant
                self.wf(),
                i <= self.entries.len(),
                out.len() == i,
                forall|k: int|
                    0 <= k < i ==> #[trigger] out@[k].0@ == self.rows()[k].0 && out@[k].1
                        == self.rows()[k].1 - self.rows()[k].2,
            decreases self.entries.len() - i,
        {
            let e = &self.entries[i];
            proof {
                lemma_rows_entry(self.rows(), i as int);
            }
            out.push((e.currency.clone(), e.max_micros - e.consumed_micros));
            i = i + 1;
        }
        proof {
            let rows = self.rows();
            assert forall|k: int| 0 <= k < out.len() implies self.view().contains_key(
                #[trigger] out@[k].0@,
            ) && out@[k].1 == self.view()[out@[k].0@].0 - self.view()[out@[k].0@].1 by {
                lemma_rows_entry(rows, k);
            }
            assert forall|c: Seq<char>| #[trigger] self.view().contains_key(c) implies exists|k: int|
                0 <= k < out.len() && out@[k].0@ == c by {
                let k = choose|k: int| 0 <= k < rows.len() && #[trigger] rows[k].0 == c;
                assert(out@[k].0@ == c);
            }
            lemma_rows_len(rows);
        }
        out
    }

    /// Charge `amount_micros` to `currency`.
    ///
    /// - Untracked currency: not enforced, `Ok(None)`, nothing changes.
    /// - Nothing left before the charge, or it would overspend:
    ///   [`ARCPError::BudgetExhausted`], nothing changes.
    /// - Otherwise the counter grows by the amount and `Ok(Some(left))`
    ///   gives what is left.
    pub fn charge(&mut self, currency: &str, amount_micros: u64) -> (r: Result<Option<u64>, ARCPError>)
        requires
            old(self).wf(),
        ensures
            final(self).wf(),
            final(self).view() == charged(old(self).view(), currency@, amount_micros),
            match charge_outcome(old(self).view(), currency@, amount_micros) {
                Ok(left) => r == Ok::<Option<u64>, ARCPError>(left),
                Err(_) => r matches Err(e) && error_code(e) == ErrorCode::BudgetExhausted
                    && error_detail(e) == charge_refusal_detail(old(self).view(), currency@, amount_micros),
            },
    {
        match self.find(currency) {
            None => Ok(None),
            Some(i) => {
                let ghost before = self.rows();
                proof {
                    lemma_rows_entry(before, i as int);
                }
                let max = self.entries[i].max_micros;
                let used = self.entries[i].consumed_micros;
                if max - used == 0 || amount_micros > max - used {
                    let mut detail = currency.to_owned();
                    detail.append(" budget exhausted (remaining=");
                    detail.append(micros_to_text(max - used).as_str());
                    detail.append(", attempted=");
                    detail.append(micros_to_text(amount_micros).as_str());
                    detail.append(")");
                    return Err(ARCPError::BudgetExhausted { detail });
                }
                let e = BudgetEntry {
                    currency: self.entries[i].currency.clone(),
                    max_micros: max,
                    consumed_micros: used + amount_micros,
                };
                let ghost row = (before[i as int].0, max, (used + amount_micros) as u64);
                self.entries.set(i, e);
                assert(self.rows() =~= before.update(i as int, row));
                proof {
                    lemma_rows_update(before, i as int, row);
                }
                Ok(Some(max - used - amount_micros))
            },
        }
    }
}

/// Two charges never interfere across currencies: a charge to one
/// currency leaves every other counter as it was.
pub proof fn lemma_charge_touches_one_currency(
    counters: Map<Seq<char>, (u64, u64)>,
    currency: Seq<char>,
    amount: u64,
    other: Seq<char>,
)
    requires
        other != currency,
    ensures
        charged(counters, currency, amount).contains_key(other) == counters.contains_key(other),
        counters.contains_key(other) ==> charged(counters, currency, amount)[other]
            == counters[other],
{
}

/// Spending exactly what is left succeeds and leaves nothing, after which
/// every charge, a zero one too, is refused.
pub proof fn lemma_exact_exhaustion(counters: Map<Seq<char>, (u64, u64)>, currency: Seq<char>, next: u64)
    requires
        counters.contains_key(currency),
        counters[currency].1 < counters[currency].0,
    ensures
        ({
            let left = (counters[currency].0 - counters[currency].1) as u64;
            &&& charge_outcome(counters, currency, left) == Ok::<Option<u64>, ()>(Some(0u64))
            &&& charge_outcome(charged(counters, currency, left), currency, next) is Err
        }),
{
}

/// While something is left, a charge within it takes exactly its amount
/// off the counter.
pub proof fn lemma_charge_decrements(counters: Map<Seq<char>, (u64, u64)>, currency: Seq<char>, amount: u64)
    requires
        counters.contains_key(currency),
        counters[currency].1 < counters[currency].0,
        amount <= counters[currency].0 - counters[currency].1,
    ensures
        charged(counters, currency, amount)[currency].0 - charged(counters, currency, amount)[currency].1
            == counters[currency].0 - counters[currency].1 - amount,
{
}

// ---------------------------------------------------------------------
// The per-job context
// ---------------------------------------------------------------------

/// Per-job dispatch context: the job's identity, its `cost.budget`
/// counters, its lease and its result-stream state. Sending and
/// cancellation belong to the code that runs the handler.
#[derive(Debug)]
pub struct ToolContext {
    /// The job id the runtime assigned.
    pub job_id: JobId,
    /// The session that submitted the job.
    pub session_id: SessionId,
    /// Id of the originating `tool.invoke`.
    pub correlation_id: MessageId,
    /// Per-job `cost.budget` counters.
    pub budget: BudgetTracker,
    /// The accepted lease, if one was supplied.
    pub lease: Option<LeaseRequest>,
    /// Per-job result-stream state.
    pub result_stream: ResultStreamState,
}

/// Whether a lease lets the job use `model`: no lease, or no `model.use`
/// capability in it, permits everything.
pub open spec fn lease_permits_model(lease: Option<LeaseRequest>, model: Seq<char>) -> bool {
    match lease {
        Some(l) => match l.model_use {
            Some(m) => model_use_permits(m@, model),
            None => true,
        },
        None => true,
    }
}

/// Only a declared `model.use` restricts models: with no lease, or a
/// lease that declares no `model.use` (whatever else it carries), every
/// model is permitted; a declared `model.use` permits exactly the models
/// one of its patterns matches, so an empty one permits none.
pub proof fn lemma_model_use_restricts_only_when_declared(lease: Option<LeaseRequest>, model: Seq<char>)
    ensures
        lease is None ==> lease_permits_model(lease, model),
        (lease matches Some(l) && l.model_use is None) ==> lease_permits_model(lease, model),
        match lease {
            Some(l) => match l.model_use {
                Some(m) => {
                    &&& lease_permits_model(lease, model) <==> exists|i: int|
                        0 <= i < m@.len() && glob_matches(#[trigger] m@[i], model)
                    &&& m@.len() == 0 ==> !lease_permits_model(lease, model)
                },
                None => true,
            },
            None => true,
        },
{
}

impl ToolContext {
    /// The context's invariant: its counters and stream state are well formed.
    pub open spec fn wf(&self) -> bool {
        self.budget.wf() && self.result_stream.wf()
    }

    /// The id of the originating `tool.invoke`.
    pub fn correlation_id(&self) -> (r: &MessageId)
        ensures
            r == &self.correlation_id,
    {
        &self.correlation_id
    }

    /// The job id the runtime assigned.
    pub fn job_id(&self) -> (r: &JobId)
        ensures
            r == &self.job_id,
    {
        &self.job_id
    }

    /// The job's `cost.budget` counters.
    pub fn budget(&self) -> (r: &BudgetTracker)
        ensures
            r == &self.budget,
    {
        &self.budget
    }

    /// The accepted lease, if one was supplied.
    pub fn lease(&self) -> (r: Option<&LeaseRequest>)
        ensures
            match self.lease {
                Some(l) => r == Some(&l),
                None => r is None,
            },
    {
        match &self.lease {
            Some(l) => Some(l),
            None => None,
        }
    }

    /// Enforce the lease's `model.use` capability: `PERMISSION_DENIED`
    /// when the lease declares `model.use` and `model` matches none of its
    /// patterns.
    pub fn enforce_model_use(&self, model: &str) -> (r: Result<(), ARCPError>)
        ensures
            lease_permits_model(self.lease, model@) <==> r is Ok,
            r matches Err(e) ==> error_code(e) == ErrorCode::PermissionDenied && error_detail(e) == "model "@
                + model@ + " not permitted by lease model.use"@,
    {
        let permitted = match &self.lease {
            Some(l) => match &l.model_use {
                Some(m) => m.matches(model),
                None => true,
            },
            None => true,
        };
        if permitted {
            Ok(())
        } else {
            let mut detail = "model ".to_owned();
            detail.append(model);
            detail.append(" not permitted by lease model.use");
            Err(ARCPError::PermissionDenied { detail })
        }
    }

    /// The canonical `BUDGET_EXHAUSTED` error for an upstream budget signal.
    pub fn translate_upstream_budget_exhausted(&self, detail: String) -> (e: ARCPError)
        ensures
            e == (ARCPError::BudgetExhausted { detail }),
    {
        ARCPError::BudgetExhausted { detail }
    }

    /// Charge `amount_micros` to `currency` on the job's counters (see
    /// [`BudgetTracker::charge`]); the caller reports the matching cost
    /// metric when it succeeds.
    pub fn charge(&mut self, currency: &str, amount_micros: u64) -> (r: Result<Option<u64>, ARCPError>)
        requires
            old(self).wf(),
        ensures
            final(self).wf(),
            final(self).budget.view() == charged(old(self).budget.view(), currency@, amount_micros),
            match charge_outcome(old(self).budget.view(), currency@, amount_micros) {
                Ok(left) => r == Ok::<Option<u64>, ARCPError>(left),
                Err(_) => r matches Err(e) && error_code(e) == ErrorCode::BudgetExhausted
                    && error_detail(e) == charge_refusal_detail(
                    old(self).budget.view(),
                    currency@,
                    amount_micros,
                ),
            },
            final(self).result_stream@ == old(self).result_stream@,
            final(self).job_id == old(self).job_id,
            final(self).session_id == old(self).session_id,
            final(self).correlation_id == old(self).correlation_id,
    {
        self.budget.charge(currency, amount_micros)
    }

    /// Validate and record one `job.result_chunk` fragment (see
    /// [`ResultStreamState::record_chunk`]) and build the envelope that
    /// carries it, addressed to the job; a rejected chunk never produces an
    /// envelope.
    pub fn emit_result_chunk(
        &mut self,
        result_id: &str,
        chunk_seq: u64,
        data: String,
        encoding: ResultChunkEncoding,
        more: bool,
    ) -> (r: Result<Envelope, ARCPError>)
        requires
            old(self).wf(),
            !chunk_counter_overflows(
                old(self).result_stream@,
                result_id@,
                chunk_seq,
                (vstd::utf8::encode_utf8(data@).len() as usize) as nat,
                more,
            ),
        ensures
            final(self).wf(),
            final(self).budget.view() == old(self).budget.view(),
            match chunk_step(
                old(self).result_stream@,
                result_id@,
                chunk_seq,
                (vstd::utf8::encode_utf8(data@).len() as usize) as nat,
                more,
            ) {
                Ok(next) => {
                    &&& final(self).result_stream@ == Some(next)
                    &&& r matches Ok(env)
                    &&& env.payload matches MessageType::JobResultChunk(p)
                    &&& p.result_id@ == result_id@
                    &&& p.chunk_seq == chunk_seq
                    &&& p.data == data
                    &&& p.encoding == encoding
                    &&& p.more == more
                    &&& env.session_id matches Some(s) && s@ == old(self).session_id@
                    &&& env.job_id matches Some(j) && j@ == old(self).job_id@
                    &&& env.correlation_id matches Some(c) && c@ == old(self).correlation_id@
                },
                Err(code) => {
                    &&& final(self).result_stream@ == old(self).result_stream@
                    &&& r matches Err(e)
                    &&& error_code(e) == code
                    &&& error_detail(e) == chunk_error_detail(
                        old(self).result_stream@,
                        result_id@,
                        chunk_seq,
                        (vstd::utf8::encode_utf8(data@).len() as usize) as nat,
                    )
                },
            },
    {
        let len = data.as_str().len();
        match self.result_stream.record_chunk(result_id, chunk_seq, len, more) {
            Ok(()) => {},
            Err(e) => {
                return Err(e);
            },
        }
        let mut env = Envelope::new(
            MessageType::JobResultChunk(
                JobResultChunkPayload {
                    result_id: result_id.to_owned(),
                    chunk_seq,
                    data,
                    encoding,
                    more,
                },
            ),
        );
        env.session_id = Some(self.session_id.clone());
        env.job_id = Some(self.job_id.clone());
        env.correlation_id = Some(self.correlation_id.clone());
        Ok(env)
    }

    /// An envelope carrying `payload`, addressed to the job.
    fn addressed(&self, payload: MessageType) -> (env: Envelope)
        ensures
            env.payload == payload,
            job_addressed(env, self.session_id@, self.job_id@, self.correlation_id@),
    {
        let mut env = Envelope::new(payload);
        env.session_id = Some(self.session_id.clone());
        env.job_id = Some(self.job_id.clone());
        env.correlation_id = Some(self.correlation_id.clone());
        env
    }

    /// The metrics that report an accepted charge, addressed to the job:
    /// first the cost metric `name` with the charged amount (`amount_bits`)
    /// in `currency`; then, exactly when the currency is budgeted
    /// (`remaining_bits` holds what is left), `cost.budget.remaining` with
    /// that amount in the same unit. Neither carries dimensions.
    pub fn charge_metrics(&self, name: &str, amount_bits: u64, currency: &str, remaining_bits: Option<u64>) -> (v:
        Vec<Envelope>)
        ensures
            v.len() == if remaining_bits is Some { 2nat } else { 1nat },
            forall|i: int|
                0 <= i < v.len() ==> job_addressed(
                    #[trigger] v@[i],
                    self.session_id@,
                    self.job_id@,
                    self.correlation_id@,
                ),
            v@[0].payload matches MessageType::Metric(p) && p.name@ == name@ && p.value_bits == amount_bits
                && p.unit@ == currency@ && p.dims is None,
            remaining_bits matches Some(b) ==> (v@[1].payload matches MessageType::Metric(p) && p.name@
                == "cost.budget.remaining"@ && p.value_bits == b && p.unit@ == currency@ && p.dims is None),
    {
        let mut v: Vec<Envelope> = Vec::new();
        let cost = MetricPayload { name: name.to_owned(), value_bits: amount_bits, unit: currency.to_owned(), dims: None };
        v.push(self.addressed(MessageType::Metric(cost)));
        match remaining_bits {
            Some(b) => {
                let left = MetricPayload {
                    name: "cost.budget.remaining".to_owned(),
                    value_bits: b,
                    unit: currency.to_owned(),
                    dims: None,
                };
                v.push(self.addressed(MessageType::Metric(left)));
            },
            None => {},
        }
        v
    }
}

/// `env` is addressed to a job: its session, job and correlation ids.
pub open spec fn job_addressed(env: Envelope, session: Seq<char>, job: Seq<char>, correlation: Seq<char>) -> bool {
    &&& env.session_id matches Some(s) && s@ == session
    &&& env.job_id matches Some(j) && j@ == job
    &&& env.correlation_id matches Some(c) && c@ == correlation
}

} // verus!
