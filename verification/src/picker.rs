//! Picking one entry among those whose status allows it.

use rand::seq::SliceRandom;
use vstd::prelude::*;

verus! {

/// Values of the "Status" column of a database that can be picked.
pub const WHITELIST_STATUSES: [&'static str; 12] = [
    "listening",
    "partially watched",
    "paused",
    "playing",
    "reading",
    "shelved",
    "want to play",
    "want to read",
    "want to rewatch",
    "want to watch",
    "want to watch again",
    "watching",
];

/// Whether `status` is, letter for letter, one of [`WHITELIST_STATUSES`].
pub open spec fn is_whitelisted(status: Seq<char>) -> bool {
    exists|i: int| 0 <= i < WHITELIST_STATUSES@.len() && (#[trigger] WHITELIST_STATUSES@[i])@ == status
}

/// Says whether `status` is, letter for letter, one of
/// [`WHITELIST_STATUSES`].
pub fn whitelisted(status: &str) -> (listed: bool)
    ensures
        listed == is_whitelisted(status@),
{
    let wanted = status.to_owned();
    let mut i: usize = 0;
    while i < WHITELIST_STATUSES.len()
        invariant
            wanted@ == status@,
            i <= WHITELIST_STATUSES@.len(),
            forall|j: int| 0 <= j < i ==> (#[trigger] WHITELIST_STATUSES@[j])@ != status@,
        decreases WHITELIST_STATUSES@.len() - i,
    {
        if WHITELIST_STATUSES[i].to_owned() == wanted {
            assert(WHITELIST_STATUSES@[i as int]@ == status@);
            return true;
        }
        i = i + 1;
    }
    false
}

/// What `str::to_lowercase` makes of `text`: its lowercase equivalent, as
/// Unicode defines it.
pub uninterp spec fn lowercase(text: Seq<char>) -> Seq<char>;

/// `str::to_lowercase`: the result is the lowercase equivalent of `text`, a
/// function of `text` alone that is known here only by its name.
#[verifier::external_body]
fn to_lowercase(text: &str) -> (lowered: String)
    ensures
        lowered@ == lowercase(text@),
{
    text.to_lowercase()
}

/// Whether an entry with this status can be picked: the status, in lower
/// case, is one of [`WHITELIST_STATUSES`].
pub open spec fn is_pickable(status: Seq<char>) -> bool {
    is_whitelisted(lowercase(status))
}

/// Says whether an entry with this status can be picked, whatever the case
/// of its letters.
pub fn pickable(status: &str) -> (picked: bool)
    ensures
        picked == is_pickable(status@),
{
    let lowered = to_lowercase(status);
    whitelisted(lowered.as_str())
}

/// What picking reads of a database entry: its title and the name of its
/// status, where it has them.
pub struct Entry {
    pub title: Option<String>,
    pub status: Option<String>,
}

/// The title under which `entry` can be picked: its own, if it has one and
/// has a status that can be picked.
pub open spec fn option_of(entry: Entry) -> Option<String> {
    match (entry.title, entry.status) {
        (Some(title), Some(status)) => if is_pickable(status@) {
            Some(title)
        } else {
            None
        },
        _ => None,
    }
}

/// The titles under which the first `n` of `entries` can be picked, in the
/// order of the entries.
pub open spec fn options_of(entries: Seq<Entry>, n: nat) -> Seq<String>
    decreases n,
{
    if n == 0 {
        Seq::empty()
    } else {
        let before = options_of(entries, (n - 1) as nat);
        match option_of(entries[n - 1]) {
            Some(title) => before.push(title),
            None => before,
        }
    }
}

/// Gives the title under which `entry` can be picked, if it can.
pub fn option(entry: Entry) -> (title: Option<String>)
    ensures
        title == option_of(entry),
{
    match (entry.title, entry.status) {
        (Some(title), Some(status)) => if pickable(status.as_str()) {
            Some(title)
        } else {
            None
        },
        _ => None,
    }
}

/// Gives the titles of the entries that can be picked, in their order.
pub fn options(entries: Vec<Entry>) -> (titles: Vec<String>)
    ensures
        titles@ == options_of(entries@, entries@.len()),
{
    let ghost all = entries@;
    let ghost mut seen: nat = 0;
    let mut titles: Vec<String> = Vec::new();
    for entry in iter: entries.into_iter()
        invariant
            all == entries@,
            iter.seq() == all,
            seen == iter.index(),
            titles@ == options_of(all, seen),
    {
        proof {
            seen = seen + 1;
        }
        if let Some(title) = option(entry) {
            titles.push(title);
        }
    }
    titles
}

/// `SliceRandom::choose` of `rand`, with the generator of the thread: it
/// gives one of the elements, whichever chance picks, and `None` exactly
/// when there is none to give.
#[verifier::external_body]
fn choose_title(titles: &Vec<String>) -> (picked: Option<&String>)
    ensures
        picked is None <==> titles@.len() == 0,
        picked matches Some(title) ==> titles@.contains(*title),
{
    titles.choose(&mut rand::thread_rng())
}

/// Picks at random the title of one entry among those that can be picked.
///
/// The result is `None` exactly when no entry can be picked. Which title
/// comes out is left to chance: two calls on the same entries may differ.
pub fn pick(entries: Vec<Entry>) -> (picked: Option<String>)
    ensures
        picked is None <==> options_of(entries@, entries@.len()).len() == 0,
        picked matches Some(title) ==> options_of(entries@, entries@.len()).contains(title),
{
    let titles = options(entries);
    match choose_title(&titles) {
        Some(title) => Some(title.clone()),
        None => None,
    }
}

} // verus!
