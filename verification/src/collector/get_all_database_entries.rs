//! Collecting every entry of one database.

use notion::ids::DatabaseId;
use notion::models::Page;
use notion::NotionApi;
use vstd::prelude::*;

use super::{
    ends_at, is_full_listing, is_run, items_through, state_after, Collector, PageResponse,
    PageView, Run, Step,
};

verus! {

/// Gets all entries of the database with the given id.
pub struct GetAllDatabaseEntriesCollector<'a> {
    /// The Notion API client.
    notion: &'a NotionApi,
    /// The id of the database whose entries are listed.
    database: DatabaseId,
    /// The entries found so far, in the order they arrived.
    pages: Vec<Page>,
}

/// The state of a [`GetAllDatabaseEntriesCollector`] as a mathematical value.
pub struct EntriesView<'a> {
    pub notion: &'a NotionApi,
    pub database: DatabaseId,
    pub pages: Seq<Page>,
}

impl<'a> View for GetAllDatabaseEntriesCollector<'a> {
    type V = EntriesView<'a>;

    closed spec fn view(&self) -> EntriesView<'a> {
        EntriesView { notion: self.notion, database: self.database, pages: self.pages@ }
    }
}

impl<'a> GetAllDatabaseEntriesCollector<'a> {
    /// Creates a collector that has seen no entry yet.
    pub fn new(notion: &'a NotionApi, database: DatabaseId) -> (collector: Self)
        ensures
            collector@ == (EntriesView { notion, database, pages: Seq::empty() }),
    {
        Self { notion, database, pages: Vec::new() }
    }

    /// The client that the entries are fetched with.
    pub fn notion(&self) -> (notion: &'a NotionApi)
        ensures
            notion == self@.notion,
    {
        self.notion
    }

    /// The id of the database whose entries are listed.
    pub fn database(&self) -> (database: &DatabaseId)
        ensures
            *database == self@.database,
    {
        &self.database
    }
}

impl<'a> Collector for GetAllDatabaseEntriesCollector<'a> {
    type Yield = Vec<Page>;

    type ApiItem = Page;

    /// Every item of the page is appended, in the order of the page.
    open spec fn fold(state: EntriesView<'a>, page: PageView<Page>) -> EntriesView<'a> {
        EntriesView { pages: state.pages + page.items, ..state }
    }

    /// The run never ends before the listing is exhausted.
    open spec fn stops(state: EntriesView<'a>) -> bool {
        false
    }

    /// The finished value holds the entries collected, in their order.
    open spec fn yields(state: EntriesView<'a>, value: Vec<Page>) -> bool {
        value@ == state.pages
    }

    fn process(&mut self, response: PageResponse<Page>) {
        let mut items = response.items;
        self.pages.append(&mut items);
    }

    fn done(&self) -> (stop: bool) {
        false
    }

    fn finish(self) -> (value: Vec<Page>) {
        self.pages
    }
}

/// After `n` fetches that all gave a page, the entries are those that the
/// collector started with, followed by the items of the `n` pages.
pub proof fn lemma_entries_after<'a, E>(
    start: EntriesView<'a>,
    script: Seq<Result<PageView<Page>, E>>,
    n: nat,
)
    ensures
        state_after::<GetAllDatabaseEntriesCollector<'a>, E>(start, script, n) == (EntriesView {
            pages: start.pages + items_through(script, n),
            ..start
        }),
    decreases n,
{
    let after = state_after::<GetAllDatabaseEntriesCollector<'a>, E>(start, script, n);
    if n == 0 {
        assert(after.pages =~= start.pages + items_through(script, n));
    } else {
        lemma_entries_after::<E>(start, script, (n - 1) as nat);
        assert(after.pages =~= start.pages + items_through(script, n));
    }
}

/// Over a listing that is served in full, a new collector takes one fetch
/// for each page, and its finished value holds the items of all the pages:
/// page after page as they arrived, each page in its own order.
pub proof fn lemma_collects_every_page<'a, E>(
    notion: &'a NotionApi,
    database: DatabaseId,
    script: Seq<Result<PageView<Page>, E>>,
    run: Run<GetAllDatabaseEntriesCollector<'a>, Vec<Page>, E>,
)
    requires
        is_full_listing(script),
        is_run::<GetAllDatabaseEntriesCollector<'a>, E>(
            EntriesView { notion, database, pages: Seq::empty() },
            script,
            run,
        ),
    ensures
        run.fetches == script.len(),
        run.end matches Ok(Step::Done(value)) && value@ == items_through(script, script.len()),
{
    let start = EntriesView { notion, database, pages: Seq::empty() };
    let n = run.fetches as nat;
    assert(ends_at::<GetAllDatabaseEntriesCollector<'a>, E>(start, script, script.len()));
    if 1 <= n < script.len() {
        assert(script[n - 1] is Ok);
        assert(!ends_at::<GetAllDatabaseEntriesCollector<'a>, E>(start, script, n));
    }
    lemma_entries_after::<E>(start, script, script.len());
}

/// Two runs of the collector from one state over the same outcomes take the
/// same number of fetches, and where one ends with a finished value or a
/// failure, the other ends with the same entries in the same order, or with
/// the same failure.
pub proof fn lemma_entries_run_is_unique<'a, E>(
    start: EntriesView<'a>,
    script: Seq<Result<PageView<Page>, E>>,
    first: Run<GetAllDatabaseEntriesCollector<'a>, Vec<Page>, E>,
    second: Run<GetAllDatabaseEntriesCollector<'a>, Vec<Page>, E>,
)
    requires
        is_run::<GetAllDatabaseEntriesCollector<'a>, E>(start, script, first),
        is_run::<GetAllDatabaseEntriesCollector<'a>, E>(start, script, second),
    ensures
        first.fetches == second.fetches,
        first.end matches Ok(Step::Done(value)) ==> second.end matches Ok(Step::Done(other))
            && value@ == other@,
        first.end matches Err(error) ==> second.end == Err::<
            Step<GetAllDatabaseEntriesCollector<'a>, Vec<Page>>,
            E,
        >(error),
{
    super::lemma_run_is_unique::<GetAllDatabaseEntriesCollector<'a>, E>(
        start,
        script,
        first,
        second,
    );
}

} // verus!
