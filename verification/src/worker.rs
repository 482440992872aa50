use vstd::prelude::*;
use crate::catalog::{column_names, EntityType};
use crate::digits::{all_digits, dec_val, parse_u32};
use crate::statement::{
    all_bound_scalar, bound_value, insert_statement, placeholder, prepare_insert, InsertPlan,
    NonScalarColumn,
};
use crate::value::serialize_spec;
use crate::timestamp::{epoch_ts, parse_ts, parse_timestamp, ts_text, Timestamp};
use crate::value::Record;

verus! {

/// One page of records as one remote request returned it, with the
/// remote's optional string-encoded count of the records still matching
/// beyond this page.
pub struct Page {
    pub records: Vec<Record>,
    pub count: Option<String>,
}

/// A transport or decode failure of one page request. The page is not
/// partially consumed: the same cursor position is simply fetched again.
pub struct RemoteFetchError {
    pub message: String,
}

/// The per-entity mirror loop's state for one cycle: the rows written so
/// far, and whether the loop has ended.
#[derive(Clone, Copy, Debug, PartialEq, Eq, Structural)]
pub struct WorkerState {
    pub total: usize,
    pub done: bool,
}

impl WorkerState {
    /// The state a worker starts a cycle in.
    pub fn start() -> (s: WorkerState)
        ensures
            s == (WorkerState { total: 0, done: false }),
    {
        WorkerState { total: 0, done: false }
    }
}

/// The state after one iteration: the fetched records, if the fetch
/// succeeded, are counted into the total; the loop ends exactly on an
/// empty fetched page or an observed shutdown flag.
pub open spec fn worker_step_spec(
    s: WorkerState,
    fetched: Option<Seq<Record>>,
    shutdown: bool,
) -> WorkerState {
    WorkerState {
        total: (s.total + (match fetched {
            Some(rs) => rs.len(),
            None => 0,
        })) as usize,
        done: (fetched matches Some(rs) && rs.len() == 0) || shutdown,
    }
}

/// One iteration of the mirror loop, after its page fetch has succeeded
/// or failed and any fetched records have been written: counts the
/// fetched records and decides whether the loop ends. The loop ends
/// exactly when a fetched page's record list is empty or the shutdown
/// flag is observed — a failed fetch alone never ends it.
pub fn worker_step(state: &WorkerState, outcome: &Result<Page, RemoteFetchError>, shutdown: bool) -> (next:
    WorkerState)
    requires
        !state.done,
        (match outcome {
            Ok(p) => state.total + p.records@.len() <= usize::MAX,
            Err(_) => true,
        }),
    ensures
        next == worker_step_spec(
            *state,
            (match outcome {
                Ok(p) => Some(p.records@),
                Err(_) => None,
            }),
            shutdown,
        ),
        next.done <==> ((outcome matches Ok(p) && p.records@.len() == 0) || shutdown),
{
    let total = match outcome {
        Ok(p) => state.total + p.records.len(),
        Err(_) => state.total,
    };
    let page_empty = match outcome {
        Ok(p) => p.records.len() == 0,
        Err(_) => false,
    };
    WorkerState { total, done: page_empty || shutdown }
}

/// The sum of the page sizes a drained run counts.
pub open spec fn drained_total(pages: Seq<Seq<Record>>) -> int
    decreases pages.len(),
{
    if pages.len() == 0 {
        0
    } else {
        pages[0].len() + drained_total(pages.drop_first())
    }
}

/// The worker state after receiving `pages` in order, each fetch
/// succeeding and no shutdown observed.
pub open spec fn run_worker(s: WorkerState, pages: Seq<Seq<Record>>) -> WorkerState
    decreases pages.len(),
{
    if pages.len() == 0 || s.done {
        s
    } else {
        run_worker(worker_step_spec(s, Some(pages[0]), false), pages.drop_first())
    }
}

/// A drained run counts exactly the records of all its pages.
proof fn lemma_drained_total_is_flatten_len(pages: Seq<Seq<Record>>)
    ensures
        drained_total(pages) == pages.flatten().len(),
    decreases pages.len(),
{
    if pages.len() > 0 {
        lemma_drained_total_is_flatten_len(pages.drop_first());
    }
}

/// A run over non-empty pages and a final empty page, from any live
/// state, ends done with every page's records counted.
proof fn lemma_run_worker_drains(s: WorkerState, pages: Seq<Seq<Record>>)
    requires
        !s.done,
        s.total + drained_total(pages) <= usize::MAX,
        forall|i: int| 0 <= i < pages.len() ==> #[trigger] pages[i].len() > 0,
    ensures
        run_worker(s, pages.push(Seq::empty())) == (WorkerState {
            total: (s.total + drained_total(pages)) as usize,
            done: true,
        }),
    decreases pages.len(),
{
    reveal_with_fuel(run_worker, 3);
    if pages.len() > 0 {
        lemma_drained_total_nonneg(pages.drop_first());
        assert(pages[0].len() > 0);
    }
    if pages.len() == 0 {
        assert(pages.push(Seq::empty())[0] =~= Seq::<Record>::empty());
        assert(pages.push(Seq::empty()).drop_first() =~= Seq::<Seq<Record>>::empty());
    } else {
        let s2 = worker_step_spec(s, Some(pages[0]), false);
        assert(pages.push(Seq::empty())[0] == pages[0]);
        assert(pages.push(Seq::empty()).drop_first() =~= pages.drop_first().push(Seq::empty()));
        lemma_run_worker_drains(s2, pages.drop_first());
    }
}

/// Page sizes are never negative in sum.
proof fn lemma_drained_total_nonneg(pages: Seq<Seq<Record>>)
    ensures
        drained_total(pages) >= 0,
    decreases pages.len(),
{
    if pages.len() > 0 {
        lemma_drained_total_nonneg(pages.drop_first());
    }
}

/// Eventual completeness: however the remote partitions an entity's
/// records into non-empty pages, a worker that receives those pages and
/// then an empty page ends its cycle done, having counted every record
/// exactly once.
pub proof fn lemma_eventual_completeness(remote: Seq<Record>, pages: Seq<Seq<Record>>)
    requires
        remote.len() <= usize::MAX,
        pages.flatten() == remote,
        forall|i: int| 0 <= i < pages.len() ==> #[trigger] pages[i].len() > 0,
    ensures
        run_worker(WorkerState { total: 0, done: false }, pages.push(Seq::empty())) == (WorkerState {
            total: remote.len() as usize,
            done: true,
        }),
{
    lemma_drained_total_is_flatten_len(pages);
    lemma_run_worker_drains(WorkerState { total: 0, done: false }, pages);
}

/// Shutdown propagation: an iteration that observes the shutdown flag
/// ends its worker's loop, whatever the fetch brought.
pub proof fn lemma_shutdown_propagation(s: WorkerState, fetched: Option<Seq<Record>>)
    ensures
        worker_step_spec(s, fetched, true).done,
{
}

/// The cursor the store's row spells: the entity's greatest stored
/// update timestamp, where the row holds one in the store's shape.
pub fn resolve_cursor(max_text: &Option<String>) -> (r: Option<Timestamp>)
    ensures
        match max_text {
            Some(s) => r == parse_ts(s@),
            None => r is None,
        },
        (match r {
            Some(t) => t.wf(),
            None => true,
        }),
{
    match max_text {
        Some(s) => parse_timestamp(s.as_str()),
        None => None,
    }
}

/// The cursor over an entity's stored update instants, in milliseconds:
/// the greatest stored instant, or the epoch while nothing is stored.
/// This models what the store's aggregate row hands `resolve_cursor`.
pub open spec fn cursor_millis(stored: Seq<int>) -> int
    decreases stored.len(),
{
    if stored.len() == 0 {
        epoch_ts().millis()
    } else {
        let rest = cursor_millis(stored.drop_last());
        if stored.last() > rest {
            stored.last()
        } else {
            rest
        }
    }
}

/// Cursor monotonicity: the store only ever gains rows for an entity, so
/// the cursor a later cycle resolves is never earlier than the cursor
/// any earlier cycle resolved.
pub proof fn lemma_cursor_monotonic(before: Seq<int>, after: Seq<int>)
    requires
        before.is_prefix_of(after),
    ensures
        cursor_millis(before) <= cursor_millis(after),
    decreases after.len(),
{
    if after.len() > before.len() {
        assert(before.is_prefix_of(after.drop_last())) by {
            assert(after.drop_last().subrange(0, before.len() as int) =~= after.subrange(
                0,
                before.len() as int,
            ));
        }
        lemma_cursor_monotonic(before, after.drop_last());
    } else {
        assert(before =~= after);
    }
}

/// One page request of the fetch protocol: list the entity ascending by
/// its update-timestamp column, strictly after the cursor, with an
/// inline count of all matching pages.
pub struct PageRequest {
    pub resource: String,
    pub order_field: String,
    pub ascending: bool,
    pub filter_field: String,
    pub filter_value: String,
    pub count_all_pages: bool,
}

/// The instant a fetch resumes from: the resolved cursor, or the epoch
/// while the entity's table is still empty.
pub open spec fn cursor_start(cursor: Option<Timestamp>) -> Timestamp {
    match cursor {
        Some(t) => t,
        None => epoch_ts(),
    }
}

/// The filter literal of a page request: the cursor in the store's
/// timestamp shape, wrapped as a remote datetime literal.
pub open spec fn filter_literal(cursor: Option<Timestamp>) -> Seq<char> {
    "datetime'"@ + ts_text(cursor_start(cursor)) + "'"@
}

/// Builds the next page request for an entity from its resolved cursor.
pub fn build_page_request(resource_type: &str, cursor: &Option<Timestamp>) -> (r: PageRequest)
    requires
        (match cursor {
            Some(t) => t.wf(),
            None => true,
        }),
    ensures
        r.resource@ == resource_type@,
        r.order_field@ == "opdateringsdato"@,
        r.ascending,
        r.filter_field@ == "opdateringsdato"@,
        r.filter_value@ == filter_literal(*cursor),
        r.count_all_pages,
{
    let start = match cursor {
        Some(t) => t.clone(),
        None => Timestamp::epoch(),
    };
    let mut filter_value = "datetime'".to_owned();
    filter_value.append(crate::timestamp::format_timestamp(&start).as_str());
    filter_value.append("'");
    proof {
        assert(filter_value@ =~= filter_literal(*cursor));
    }
    PageRequest {
        resource: resource_type.to_owned(),
        order_field: "opdateringsdato".to_owned(),
        ascending: true,
        filter_field: "opdateringsdato".to_owned(),
        filter_value,
        count_all_pages: true,
    }
}

/// The remote's count of records still remaining beyond a page: zero
/// where the page carries none, its numeral's value where it parses.
pub fn remaining_count(page: &Page) -> (r: Option<u32>)
    ensures
        match page.count {
            None => r == Some(0u32),
            Some(c) => (match r {
                Some(v) => all_digits(c@) && c@.len() >= 1 && v as int == dec_val(c@),
                None => !(all_digits(c@) && 1 <= c@.len() && dec_val(c@) <= u32::MAX),
            }),
        },
{
    match &page.count {
        None => Some(0),
        Some(c) => parse_u32(c.as_str()),
    }
}

/// The share of an entity's records already stored, in percent, rounded
/// down: nothing where nothing is stored and nothing remains.
pub fn progress_percent(remaining: u32, stored: u32) -> (r: Option<u32>)
    ensures
        match r {
            Some(p) => remaining as int + stored as int > 0 && p as int == 100 - (remaining as int
                * 100) / (remaining as int + stored as int),
            None => remaining as int + stored as int == 0,
        },
{
    if remaining == 0 && stored == 0 {
        return None;
    }
    let num: u64 = remaining as u64 * 100;
    let den: u64 = remaining as u64 + stored as u64;
    proof {
        vstd::arithmetic::div_mod::lemma_div_is_ordered(
            num as int,
            100 * den as int,
            den as int,
        );
        vstd::arithmetic::div_mod::lemma_div_multiples_vanish(100, den as int);
    }
    Some(100 - (num / den) as u32)
}

/// Builds the inserts for every record of a fetched page, in page order.
/// Fails, surfacing the first offending record's first offending column,
/// exactly when some record holds a non-scalar value for some catalog
/// column: one record's violation is never passed over silently.
pub fn plan_page_inserts(entity: &EntityType, page: &Page) -> (r: Result<
    Vec<InsertPlan>,
    NonScalarColumn,
>)
    ensures
        match r {
            Ok(plans) => {
                &&& plans@.len() == page.records@.len()
                &&& forall|i: int|
                    0 <= i < page.records@.len() ==> #[trigger] all_bound_scalar(
                        entity,
                        &page.records@[i],
                    )
                &&& forall|i: int|
                    0 <= i < page.records@.len() ==> (#[trigger] plans@[i]).statement@
                        == insert_statement(entity.name@, column_names(entity))
                        && plans@[i].params@.len() == entity.columns@.len()
                &&& forall|i: int, j: int|
                    0 <= i < page.records@.len() && 0 <= j < entity.columns@.len() ==> {
                        &&& (#[trigger] plans@[i].params@[j]).name@ == placeholder(
                            entity.columns@[j].name@,
                        )
                        &&& plans@[i].params@[j].value@ == serialize_spec(
                            bound_value(&page.records@[i], entity.columns@[j].name@),
                        )
                    }
            },
            Err(_) => exists|i: int|
                0 <= i < page.records@.len() && !(#[trigger] all_bound_scalar(
                    entity,
                    &page.records@[i],
                )),
        },
{
    let mut plans: Vec<InsertPlan> = Vec::new();
    let n = page.records.len();
    let mut i: usize = 0;
    while i < n
        invariant
            n == page.records@.len(),
            0 <= i <= n,
            plans@.len() == i,
            forall|k: int|
                0 <= k < i ==> #[trigger] all_bound_scalar(entity, &page.records@[k]),
            forall|k: int|
                0 <= k < i ==> (#[trigger] plans@[k]).statement@ == insert_statement(
                    entity.name@,
                    column_names(entity),
                ) && plans@[k].params@.len() == entity.columns@.len(),
            forall|k: int, j: int|
                0 <= k < i && 0 <= j < entity.columns@.len() ==> {
                    &&& (#[trigger] plans@[k].params@[j]).name@ == placeholder(
                        entity.columns@[j].name@,
                    )
                    &&& plans@[k].params@[j].value@ == serialize_spec(
                        bound_value(&page.records@[k], entity.columns@[j].name@),
                    )
                },
        decreases n - i,
    {
        match prepare_insert(entity, &page.records[i]) {
            Ok(plan) => {
                plans.push(plan);
            },
            Err(e) => {
                proof {
                    assert(!all_bound_scalar(entity, &page.records@[i as int]));
                }
                return Err(e);
            },
        }
        i = i + 1;
    }
    Ok(plans)
}

} // verus!
