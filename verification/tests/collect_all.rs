use std::collections::HashMap;
use std::str::FromStr;

use notion::chrono::{DateTime, Utc};
use notion::ids::{DatabaseId, PageId};
use notion::models::{Page, Parent, Properties};
use notion::NotionApi;
use notion_picker::collector::{
    advance, collect, Collector, GetAllDatabaseEntriesCollector, PageResponse, Step,
};

fn client() -> NotionApi {
    NotionApi::new("secret_token".to_string()).unwrap()
}

fn database_id() -> DatabaseId {
    DatabaseId::from_str("database").unwrap()
}

fn entry(id: &str) -> Page {
    Page {
        id: PageId::from_str(id).unwrap(),
        created_time: DateTime::<Utc>::UNIX_EPOCH,
        last_edited_time: DateTime::<Utc>::UNIX_EPOCH,
        archived: false,
        properties: Properties { properties: HashMap::new() },
        icon: None,
        parent: Parent::Workspace,
    }
}

fn page(ids: &[&str], has_more: bool) -> PageResponse<Page> {
    PageResponse { items: ids.iter().map(|id| entry(id)).collect(), has_more }
}

fn finished(
    end: Result<Step<GetAllDatabaseEntriesCollector<'_>, Vec<Page>>, String>,
) -> Vec<Page> {
    match end {
        Ok(Step::Done(entries)) => entries,
        Ok(Step::Fetch(_)) => panic!("the run asks for another page"),
        Err(error) => panic!("the run failed: {}", error),
    }
}

#[test]
fn new_collector_remembers_its_query() {
    let notion = client();
    let collector = GetAllDatabaseEntriesCollector::new(&notion, database_id());
    assert_eq!(collector.database(), &database_id());
    assert!(std::ptr::eq(collector.notion(), &notion));
    assert!(!collector.done());
    assert_eq!(collector.finish(), Vec::<Page>::new());
}

#[test]
fn process_appends_every_item_in_order() {
    let notion = client();
    let mut collector = GetAllDatabaseEntriesCollector::new(&notion, database_id());
    collector.process(page(&["a", "b"], true));
    assert!(!collector.done());
    collector.process(page(&[], true));
    collector.process(page(&["c"], false));
    assert!(!collector.done());
    assert_eq!(collector.database(), &database_id());
    assert_eq!(collector.finish(), vec![entry("a"), entry("b"), entry("c")]);
}

#[test]
fn two_pages_are_concatenated_after_two_fetches() {
    let notion = client();
    let collector = GetAllDatabaseEntriesCollector::new(&notion, database_id());
    let run = collect::<_, String>(
        collector,
        vec![Ok(page(&["a", "b"], true)), Ok(page(&["c"], false))],
    );
    assert_eq!(run.fetches, 2);
    assert_eq!(finished(run.end), vec![entry("a"), entry("b"), entry("c")]);
}

#[test]
fn every_page_of_a_full_listing_is_fetched_once() {
    let notion = client();
    let collector = GetAllDatabaseEntriesCollector::new(&notion, database_id());
    let run = collect::<_, String>(
        collector,
        vec![
            Ok(page(&["a"], true)),
            Ok(page(&["b", "c"], true)),
            Ok(page(&[], true)),
            Ok(page(&["d"], false)),
        ],
    );
    assert_eq!(run.fetches, 4);
    assert_eq!(finished(run.end), vec![entry("a"), entry("b"), entry("c"), entry("d")]);
}

#[test]
fn a_last_first_page_takes_one_fetch() {
    let notion = client();
    let collector = GetAllDatabaseEntriesCollector::new(&notion, database_id());
    let run = collect::<_, String>(
        collector,
        vec![Ok(page(&["a", "b"], false)), Ok(page(&["c"], false)), Err("late".to_string())],
    );
    assert_eq!(run.fetches, 1);
    assert_eq!(finished(run.end), vec![entry("a"), entry("b")]);
}

#[test]
fn an_empty_last_page_gives_an_empty_value() {
    let notion = client();
    let collector = GetAllDatabaseEntriesCollector::new(&notion, database_id());
    let run = collect::<_, String>(collector, vec![Ok(page(&[], false))]);
    assert_eq!(run.fetches, 1);
    assert_eq!(finished(run.end), Vec::<Page>::new());
}

#[test]
fn a_failed_first_fetch_is_the_outcome_of_the_run() {
    let notion = client();
    let collector = GetAllDatabaseEntriesCollector::new(&notion, database_id());
    let run = collect(
        collector,
        vec![Err("unreachable host".to_string()), Ok(page(&["a"], false))],
    );
    assert_eq!(run.fetches, 1);
    match run.end {
        Err(error) => assert_eq!(error, "unreachable host"),
        Ok(_) => panic!("the failure was lost"),
    }
}

#[test]
fn a_later_failure_discards_what_was_collected() {
    let notion = client();
    let collector = GetAllDatabaseEntriesCollector::new(&notion, database_id());
    let run = collect(
        collector,
        vec![Ok(page(&["a"], true)), Err("timeout".to_string()), Ok(page(&["b"], false))],
    );
    assert_eq!(run.fetches, 2);
    match run.end {
        Err(error) => assert_eq!(error, "timeout"),
        Ok(_) => panic!("the failure was lost"),
    }
}

#[test]
fn an_unfinished_listing_hands_the_collector_back() {
    let notion = client();
    let collector = GetAllDatabaseEntriesCollector::new(&notion, database_id());
    let run = collect::<_, String>(
        collector,
        vec![Ok(page(&["a"], true)), Ok(page(&["b"], true))],
    );
    assert_eq!(run.fetches, 2);
    match run.end {
        Ok(Step::Fetch(collector)) => {
            assert_eq!(collector.database(), &database_id());
            assert_eq!(collector.finish(), vec![entry("a"), entry("b")]);
        },
        _ => panic!("the run should ask for another page"),
    }
}

#[test]
fn no_outcome_means_no_fetch() {
    let notion = client();
    let collector = GetAllDatabaseEntriesCollector::new(&notion, database_id());
    let run = collect::<_, String>(collector, Vec::new());
    assert_eq!(run.fetches, 0);
    match run.end {
        Ok(Step::Fetch(collector)) => assert_eq!(collector.finish(), Vec::<Page>::new()),
        _ => panic!("the run should ask for the first page"),
    }
}

#[test]
fn advance_asks_for_the_next_page_while_more_follow() {
    let notion = client();
    let collector = GetAllDatabaseEntriesCollector::new(&notion, database_id());
    let collector = match advance::<_, String>(collector, Ok(page(&["a"], true))) {
        Ok(Step::Fetch(collector)) => collector,
        _ => panic!("the run should ask for another page"),
    };
    match advance::<_, String>(collector, Ok(page(&["b"], false))) {
        Ok(Step::Done(entries)) => assert_eq!(entries, vec![entry("a"), entry("b")]),
        _ => panic!("the run should be over"),
    }
}

#[test]
fn advance_hands_a_failure_on_unchanged() {
    let notion = client();
    let collector = GetAllDatabaseEntriesCollector::new(&notion, database_id());
    match advance(collector, Err("denied".to_string())) {
        Err(error) => assert_eq!(error, "denied"),
        Ok(_) => panic!("the failure was lost"),
    }
}

#[test]
fn repeated_runs_give_the_same_entries() {
    let notion = client();
    let script = || -> Vec<Result<PageResponse<Page>, String>> {
        vec![Ok(page(&["a", "b"], true)), Ok(page(&["c"], false))]
    };
    let first = collect(GetAllDatabaseEntriesCollector::new(&notion, database_id()), script());
    let second = collect(GetAllDatabaseEntriesCollector::new(&notion, database_id()), script());
    assert_eq!(first.fetches, second.fetches);
    assert_eq!(finished(first.end), finished(second.end));
}
