//! Finding one database by its name.

use notion::models::Database;
use notion::NotionApi;
use vstd::prelude::*;

use super::{
    ends_at, is_full_listing, is_run, lemma_run_is_unique, state_after, Collector, PageResponse,
    PageView, Run, Step,
};

verus! {

/// One item of a page of search results, by its kind.
pub enum SearchItem {
    /// A database.
    Database { database: Database },
    /// An object of any other kind.
    Other,
}

/// Gets a single database from Notion with the given `name`.
pub struct GetDatabaseByNameCollector<'a> {
    /// The Notion API client.
    notion: &'a NotionApi,
    /// The database name to search for.
    name: &'a str,
    /// The found database, if any.
    database: Option<Database>,
}

/// The state of a [`GetDatabaseByNameCollector`] as a mathematical value.
pub struct SearchView<'a> {
    pub notion: &'a NotionApi,
    pub name: &'a str,
    pub database: Option<Database>,
}

impl<'a> View for GetDatabaseByNameCollector<'a> {
    type V = SearchView<'a>;

    closed spec fn view(&self) -> SearchView<'a> {
        SearchView { notion: self.notion, name: self.name, database: self.database }
    }
}

/// The database of the first item of `items` that is one, if any is.
pub open spec fn first_database(items: Seq<SearchItem>) -> Option<Database>
    decreases items.len(),
{
    if items.len() == 0 {
        None
    } else {
        match items[0] {
            SearchItem::Database { database } => Some(database),
            SearchItem::Other => first_database(items.drop_first()),
        }
    }
}

/// Looks for the first database among `items`.
fn find_database(items: Vec<SearchItem>) -> (found: Option<Database>)
    ensures
        found == first_database(items@),
{
    let ghost all = items@;
    let ghost mut seen: int = 0;
    assert(all.skip(0) == all);
    for item in iter: items.into_iter()
        invariant
            iter.seq() == all,
            seen == iter.index(),
            first_database(all) == first_database(all.skip(seen)),
    {
        proof {
            assert(all.skip(seen)[0] == item);
            assert(all.skip(seen).drop_first() == all.skip(seen + 1));
            seen = seen + 1;
        }
        if let SearchItem::Database { database } = item {
            return Some(database);
        }
    }
    None
}

impl<'a> GetDatabaseByNameCollector<'a> {
    /// Creates a collector that has found nothing yet.
    pub fn new(notion: &'a NotionApi, name: &'a str) -> (collector: Self)
        ensures
            collector@ == (SearchView { notion, name, database: None }),
    {
        Self { notion, name, database: None }
    }

    /// The client that the search is made with.
    pub fn notion(&self) -> (notion: &'a NotionApi)
        ensures
            notion == self@.notion,
    {
        self.notion
    }

    /// The database name that is searched for.
    pub fn name(&self) -> (name: &'a str)
        ensures
            name == self@.name,
    {
        self.name
    }
}

impl<'a> Collector for GetDatabaseByNameCollector<'a> {
    type Yield = Option<Database>;

    type ApiItem = SearchItem;

    /// A database that was found stays; until then the first database of the
    /// page, if it has one, is taken.
    open spec fn fold(state: SearchView<'a>, page: PageView<SearchItem>) -> SearchView<'a> {
        if state.database is Some {
            state
        } else {
            SearchView { database: first_database(page.items), ..state }
        }
    }

    /// The search is over as soon as a database is found.
    open spec fn stops(state: SearchView<'a>) -> bool {
        state.database is Some
    }

    /// The finished value is the database found, or `None`.
    open spec fn yields(state: SearchView<'a>, value: Option<Database>) -> bool {
        value == state.database
    }

    fn process(&mut self, response: PageResponse<SearchItem>) {
        if self.database.is_none() {
            self.database = find_database(response.items);
        }
    }

    fn done(&self) -> (stop: bool) {
        self.database.is_some()
    }

    fn finish(self) -> (value: Option<Database>) {
        self.database
    }
}

/// Whether some item of `items` is a database.
pub open spec fn has_database(items: Seq<SearchItem>) -> bool {
    exists|i: int| 0 <= i < items.len() && (#[trigger] items[i]) is Database
}

/// `first_database` finds a database exactly where there is one, and then
/// the one that comes first: no item before it is a database.
pub proof fn lemma_first_database(items: Seq<SearchItem>)
    ensures
        first_database(items) is Some <==> has_database(items),
        first_database(items) matches Some(database) ==> exists|i: int|
            0 <= i < items.len() && #[trigger] items[i] == (SearchItem::Database { database })
                && forall|j: int| 0 <= j < i ==> !((#[trigger] items[j]) is Database),
    decreases items.len(),
{
    if items.len() > 0 {
        let rest = items.drop_first();
        lemma_first_database(rest);
        match items[0] {
            SearchItem::Database { database } => {
                assert(items[0] is Database);
            },
            SearchItem::Other => {
                if has_database(items) {
                    let i = choose|i: int| 0 <= i < items.len() && (#[trigger] items[i]) is Database;
                    assert(rest[i - 1] is Database);
                }
                if has_database(rest) {
                    let i = choose|i: int| 0 <= i < rest.len() && (#[trigger] rest[i]) is Database;
                    assert(items[i + 1] is Database);
                }
                if let Some(database) = first_database(items) {
                    let i = choose|i: int|
                        0 <= i < rest.len() && #[trigger] rest[i] == (SearchItem::Database {
                            database,
                        }) && forall|j: int| 0 <= j < i ==> !((#[trigger] rest[j]) is Database);
                    assert(items[i + 1] == (SearchItem::Database { database }));
                    assert forall|j: int| 0 <= j < i + 1 implies !((#[trigger] items[j])
                        is Database) by {
                        if j > 0 {
                            assert(rest[j - 1] == items[j]);
                        }
                    }
                }
            },
        }
    }
}

/// As long as every fetch gave a page and no page held a database, nothing
/// is found.
proof fn lemma_nothing_found<'a, E>(
    start: SearchView<'a>,
    script: Seq<Result<PageView<SearchItem>, E>>,
    n: nat,
)
    requires
        start.database is None,
        n <= script.len(),
        forall|i: int|
            0 <= i < n ==> ((#[trigger] script[i]) matches Ok(page) && !has_database(page.items)),
    ensures
        state_after::<GetDatabaseByNameCollector<'a>, E>(start, script, n) == start,
    decreases n,
{
    if n > 0 {
        lemma_nothing_found::<E>(start, script, (n - 1) as nat);
        lemma_first_database(script[n - 1]->Ok_0.items);
    }
}

/// Where the `k`-th page, counted from one, is the first to hold a database,
/// and every page before it says that more follow, a new collector takes
/// exactly `k` fetches and ends with the first database of that page,
/// whatever comes after it.
pub proof fn lemma_search_stops_at_first_match<'a, E>(
    notion: &'a NotionApi,
    name: &'a str,
    script: Seq<Result<PageView<SearchItem>, E>>,
    k: nat,
    run: Run<GetDatabaseByNameCollector<'a>, Option<Database>, E>,
)
    requires
        1 <= k <= script.len(),
        forall|i: int|
            0 <= i < k - 1 ==> ((#[trigger] script[i]) matches Ok(page) && !has_database(
                page.items,
            ) && page.has_more),
        script[k - 1] matches Ok(page) && has_database(page.items),
        is_run::<GetDatabaseByNameCollector<'a>, E>(
            SearchView { notion, name, database: None },
            script,
            run,
        ),
    ensures
        run.fetches == k,
        run.end == Ok::<Step<GetDatabaseByNameCollector<'a>, Option<Database>>, E>(
            Step::Done(first_database(script[k - 1]->Ok_0.items)),
        ),
        first_database(script[k - 1]->Ok_0.items) is Some,
{
    let start = SearchView { notion, name, database: None };
    let n = run.fetches as nat;
    lemma_first_database(script[k - 1]->Ok_0.items);
    lemma_nothing_found::<E>(start, script, (k - 1) as nat);
    assert(ends_at::<GetDatabaseByNameCollector<'a>, E>(start, script, k));
    if 1 <= n < k {
        lemma_nothing_found::<E>(start, script, (n - 1) as nat);
        lemma_first_database(script[n - 1]->Ok_0.items);
        assert(!ends_at::<GetDatabaseByNameCollector<'a>, E>(start, script, n));
    }
}

/// Over a listing that is served in full and holds no database, a new
/// collector fetches every page, up to the one that says none follows, and
/// its finished value is `None`.
pub proof fn lemma_search_without_match<'a, E>(
    notion: &'a NotionApi,
    name: &'a str,
    script: Seq<Result<PageView<SearchItem>, E>>,
    run: Run<GetDatabaseByNameCollector<'a>, Option<Database>, E>,
)
    requires
        is_full_listing(script),
        forall|i: int| 0 <= i < script.len() ==> !has_database((#[trigger] script[i])->Ok_0.items),
        is_run::<GetDatabaseByNameCollector<'a>, E>(
            SearchView { notion, name, database: None },
            script,
            run,
        ),
    ensures
        run.fetches == script.len(),
        run.end == Ok::<Step<GetDatabaseByNameCollector<'a>, Option<Database>>, E>(
            Step::Done(None),
        ),
{
    let start = SearchView { notion, name, database: None };
    let n = run.fetches as nat;
    let len = script.len();
    lemma_nothing_found::<E>(start, script, len);
    lemma_nothing_found::<E>(start, script, (len - 1) as nat);
    lemma_first_database(script[len - 1]->Ok_0.items);
    assert(ends_at::<GetDatabaseByNameCollector<'a>, E>(start, script, len));
    if 1 <= n < len {
        lemma_nothing_found::<E>(start, script, (n - 1) as nat);
        lemma_first_database(script[n - 1]->Ok_0.items);
        assert(script[n - 1] is Ok);
        assert(!ends_at::<GetDatabaseByNameCollector<'a>, E>(start, script, n));
    }
}

/// Two runs of the collector from one state over the same outcomes take the
/// same number of fetches, and where one ends with a finished value or a
/// failure, the other ends with the same value or the same failure.
pub proof fn lemma_search_run_is_unique<'a, E>(
    start: SearchView<'a>,
    script: Seq<Result<PageView<SearchItem>, E>>,
    first: Run<GetDatabaseByNameCollector<'a>, Option<Database>, E>,
    second: Run<GetDatabaseByNameCollector<'a>, Option<Database>, E>,
)
    requires
        is_run::<GetDatabaseByNameCollector<'a>, E>(start, script, first),
        is_run::<GetDatabaseByNameCollector<'a>, E>(start, script, second),
    ensures
        first.fetches == second.fetches,
        !(first.end matches Ok(Step::Fetch(_))) ==> first.end == second.end,
{
    lemma_run_is_unique::<GetDatabaseByNameCollector<'a>, E>(start, script, first, second);
}

} // verus!
