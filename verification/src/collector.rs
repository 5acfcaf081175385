//! The collection protocol: fetch a page, fold it in, decide whether to stop,
//! and finish.

use vstd::prelude::*;

pub mod get_all_database_entries;
pub mod get_database_by_name;

pub use get_all_database_entries::GetAllDatabaseEntriesCollector;
pub use get_database_by_name::{GetDatabaseByNameCollector, SearchItem};

verus! {

/// One page of a paginated listing: its items in the order the source gave
/// them, and whether the source has more pages after it.
pub struct PageResponse<T> {
    pub items: Vec<T>,
    pub has_more: bool,
}

/// A page as a mathematical value.
pub struct PageView<T> {
    pub items: Seq<T>,
    pub has_more: bool,
}

impl<T> View for PageResponse<T> {
    type V = PageView<T>;

    open spec fn view(&self) -> PageView<T> {
        PageView { items: self.items@, has_more: self.has_more }
    }
}

/// How a run goes on once the outcome of a fetch has been taken in.
pub enum Step<C, Y> {
    /// The run is not over: the collector is handed back, and the next page
    /// is to be fetched for it.
    Fetch(C),
    /// The run is over, with its finished value.
    Done(Y),
}

/// The lifecycle of collecting a multi-page listing into one value.
///
/// The view of a collector is its state as a mathematical value. `fold`,
/// `stops` and `yields` say what the three lifecycle methods do to that
/// state; [`advance`] and [`collect`] are the protocol built on them, the
/// same for every collector.
pub trait Collector: Sized + Send + Sync + View {
    /// The finished value of a run.
    type Yield;

    /// The type of the items on a page.
    type ApiItem;

    /// The state that results from folding `page` into `state`.
    spec fn fold(state: Self::V, page: PageView<Self::ApiItem>) -> Self::V;

    /// Whether a collector in `state` has seen enough, whatever pages remain.
    spec fn stops(state: Self::V) -> bool;

    /// Whether `value` is the finished value of a run that ended in `state`.
    spec fn yields(state: Self::V, value: Self::Yield) -> bool;

    /// Folds one page into the state.
    fn process(&mut self, response: PageResponse<Self::ApiItem>)
        ensures
            final(self)@ == Self::fold(old(self)@, response@),
    ;

    /// Says whether the run may end before the listing is exhausted.
    fn done(&self) -> (stop: bool)
        ensures
            stop == Self::stops(self@),
    ;

    /// Turns the state into the finished value.
    fn finish(self) -> (value: Self::Yield)
        ensures
            Self::yields(self@, value),
    ;
}

/// The outcome of a fetch as a mathematical value.
pub open spec fn outcome_view<T, E>(outcome: Result<PageResponse<T>, E>) -> Result<PageView<T>, E> {
    match outcome {
        Ok(response) => Ok(response@),
        Err(error) => Err(error),
    }
}

/// Whether a run that is in `state` ends once `page` has been folded in:
/// the collector has then seen enough, or the page is the last one.
pub open spec fn ends_with<C: Collector>(state: C::V, page: PageView<C::ApiItem>) -> bool {
    C::stops(C::fold(state, page)) || !page.has_more
}

/// Whether `step` is how a run in `state` goes on after `outcome`.
pub open spec fn is_step<C: Collector, E>(
    state: C::V,
    outcome: Result<PageView<C::ApiItem>, E>,
    step: Result<Step<C, C::Yield>, E>,
) -> bool {
    match outcome {
        Err(error) => step == Err::<Step<C, C::Yield>, E>(error),
        Ok(page) => if ends_with::<C>(state, page) {
            step matches Ok(Step::Done(value)) && C::yields(C::fold(state, page), value)
        } else {
            step matches Ok(Step::Fetch(collector)) && collector@ == C::fold(state, page)
        },
    }
}

/// Takes in the outcome of one fetch.
///
/// A failed fetch ends the run with that failure, and nothing is folded.
/// A page is folded into the state first; the run then ends with the
/// finished value if the collector has seen enough or the page was the
/// last one, and asks for the next page otherwise.
pub fn advance<C: Collector, E>(
    collector: C,
    outcome: Result<PageResponse<C::ApiItem>, E>,
) -> (step: Result<Step<C, C::Yield>, E>)
    ensures
        is_step::<C, E>(collector@, outcome_view(outcome), step),
{
    match outcome {
        Err(error) => Err(error),
        Ok(response) => {
            let mut collector = collector;
            let has_more = response.has_more;
            collector.process(response);
            if collector.done() || !has_more {
                Ok(Step::Done(collector.finish()))
            } else {
                Ok(Step::Fetch(collector))
            }
        },
    }
}

/// A run as it ended: how many fetches it took, and what came of it.
pub struct Run<C, Y, E> {
    /// The number of fetches whose outcomes were taken in.
    pub fetches: usize,
    /// The failure that ended the run, its finished value, or the collector
    /// that waits for the next page.
    pub end: Result<Step<C, Y>, E>,
}

/// The outcomes of successive fetches as mathematical values.
pub open spec fn script_view<T, E>(outcomes: Seq<Result<PageResponse<T>, E>>) -> Seq<
    Result<PageView<T>, E>,
> {
    outcomes.map_values(|outcome: Result<PageResponse<T>, E>| outcome_view(outcome))
}

/// The state once the pages among the first `n` outcomes of `script` have
/// been folded into `start`, in the order of the fetches.
pub open spec fn state_after<C: Collector, E>(
    start: C::V,
    script: Seq<Result<PageView<C::ApiItem>, E>>,
    n: nat,
) -> C::V
    decreases n,
{
    if n == 0 {
        start
    } else {
        let before = state_after::<C, E>(start, script, (n - 1) as nat);
        match script[n - 1] {
            Ok(page) => C::fold(before, page),
            Err(_) => before,
        }
    }
}

/// Whether a run from `start` is over with its `n`-th fetch, counted from
/// one: the fetch failed, or its page ends the run.
pub open spec fn ends_at<C: Collector, E>(
    start: C::V,
    script: Seq<Result<PageView<C::ApiItem>, E>>,
    n: nat,
) -> bool {
    1 <= n <= script.len() && match script[n - 1] {
        Ok(page) => ends_with::<C>(state_after::<C, E>(start, script, (n - 1) as nat), page),
        Err(_) => true,
    }
}

/// Whether `run` is the run from `start` over `script`.
///
/// The run takes the outcomes in order, up to and including the first one
/// with which it is over. It ends with the failure of that fetch, or with
/// the finished value of the state that its page was folded into. Where the
/// script is used up before that, the collector is handed back with all the
/// pages folded in.
pub open spec fn is_run<C: Collector, E>(
    start: C::V,
    script: Seq<Result<PageView<C::ApiItem>, E>>,
    run: Run<C, C::Yield, E>,
) -> bool {
    let n = run.fetches as nat;
    &&& n <= script.len()
    &&& forall|m: nat| 1 <= m < n ==> !#[trigger] ends_at::<C, E>(start, script, m)
    &&& if ends_at::<C, E>(start, script, n) {
        match script[n - 1] {
            Ok(_) => run.end matches Ok(Step::Done(value)) && C::yields(
                state_after::<C, E>(start, script, n),
                value,
            ),
            Err(error) => run.end == Err::<Step<C, C::Yield>, E>(error),
        }
    } else {
        &&& n == script.len()
        &&& run.end matches Ok(Step::Fetch(collector)) && collector@ == state_after::<C, E>(
            start,
            script,
            n,
        )
    }
}

/// Runs the protocol over the outcomes of successive fetches.
///
/// The outcomes are taken in one by one, as [`advance`] takes them, until
/// the run is over or none is left; what follows the end of the run is never
/// looked at.
pub fn collect<C: Collector, E>(
    collector: C,
    outcomes: Vec<Result<PageResponse<C::ApiItem>, E>>,
) -> (run: Run<C, C::Yield, E>)
    ensures
        is_run::<C, E>(collector@, script_view(outcomes@), run),
{
    let ghost start = collector@;
    let ghost all = outcomes@;
    let ghost script = script_view(all);
    assert(all.len() == outcomes.len());
    let mut current = collector;
    let mut fetches: usize = 0;
    for outcome in iter: outcomes.into_iter()
        invariant
            start == collector@,
            all == outcomes@,
            script == script_view(all),
            iter.seq() == all,
            all.len() <= usize::MAX,
            fetches == iter.index(),
            current@ == state_after::<C, E>(start, script, fetches as nat),
            forall|m: nat| 1 <= m <= fetches ==> !#[trigger] ends_at::<C, E>(start, script, m),
    {
        fetches = fetches + 1;
        match advance(current, outcome) {
            Ok(Step::Fetch(next)) => {
                current = next;
            },
            end => {
                return Run { fetches, end };
            },
        }
    }
    Run { fetches, end: Ok(Step::Fetch(current)) }
}

/// Whether `script` is a listing that is served in full: every fetch gives
/// a page, and the last page is the only one to say that none follows.
pub open spec fn is_full_listing<T, E>(script: Seq<Result<PageView<T>, E>>) -> bool {
    &&& script.len() > 0
    &&& forall|i: int| 0 <= i < script.len() ==> (#[trigger] script[i]) is Ok
    &&& forall|i: int|
        0 <= i < script.len() ==> ((#[trigger] script[i])->Ok_0.has_more <==> i < script.len() - 1)
}

/// The items of the pages among the first `n` outcomes of `script`: page
/// after page in the order of the fetches, and within a page in its order.
pub open spec fn items_through<T, E>(script: Seq<Result<PageView<T>, E>>, n: nat) -> Seq<T>
    decreases n,
{
    if n == 0 {
        Seq::empty()
    } else {
        let before = items_through(script, (n - 1) as nat);
        match script[n - 1] {
            Ok(page) => before + page.items,
            Err(_) => before,
        }
    }
}

/// A run is determined by the state it starts from and by what the fetches
/// give: two runs from one state over the same outcomes take the same number
/// of fetches and end alike, with the same failure, with finished values of
/// the same state, or with collectors in the same state.
pub proof fn lemma_run_is_unique<C: Collector, E>(
    start: C::V,
    script: Seq<Result<PageView<C::ApiItem>, E>>,
    first: Run<C, C::Yield, E>,
    second: Run<C, C::Yield, E>,
)
    requires
        is_run::<C, E>(start, script, first),
        is_run::<C, E>(start, script, second),
    ensures
        first.fetches == second.fetches,
        match first.end {
            Ok(Step::Fetch(collector)) => second.end matches Ok(Step::Fetch(other))
                && collector@ == other@,
            Ok(Step::Done(value)) => second.end matches Ok(Step::Done(other)) && C::yields(
                state_after::<C, E>(start, script, first.fetches as nat),
                value,
            ) && C::yields(state_after::<C, E>(start, script, first.fetches as nat), other),
            Err(error) => second.end == Err::<Step<C, C::Yield>, E>(error),
        },
{
    let n = first.fetches as nat;
    let m = second.fetches as nat;
    if n < m {
        assert(!ends_at::<C, E>(start, script, n));
    }
    if m < n {
        assert(!ends_at::<C, E>(start, script, m));
    }
}

/// Where the first page says that none follows, the run takes exactly one
/// fetch, whatever the page holds, and ends with the finished value of the
/// state that the page was folded into.
pub proof fn lemma_single_page_run<C: Collector, E>(
    start: C::V,
    script: Seq<Result<PageView<C::ApiItem>, E>>,
    run: Run<C, C::Yield, E>,
)
    requires
        script.len() > 0,
        script[0] matches Ok(page) && !page.has_more,
        is_run::<C, E>(start, script, run),
    ensures
        run.fetches == 1,
        run.end matches Ok(Step::Done(value)) && C::yields(
            C::fold(start, script[0]->Ok_0),
            value,
        ),
{
    reveal_with_fuel(state_after, 2);
    assert(ends_at::<C, E>(start, script, 1));
}

/// Where the first fetch fails, the run takes that one fetch and ends with
/// its failure: no finished value comes of it, and no collector.
pub proof fn lemma_first_fetch_fails<C: Collector, E>(
    start: C::V,
    script: Seq<Result<PageView<C::ApiItem>, E>>,
    run: Run<C, C::Yield, E>,
)
    requires
        script.len() > 0,
        script[0] is Err,
        is_run::<C, E>(start, script, run),
    ensures
        run.fetches == 1,
        run.end == Err::<Step<C, C::Yield>, E>(script[0]->Err_0),
{
    assert(ends_at::<C, E>(start, script, 1));
}

} // verus!
