//! The Meilisearch side: the three indexes, what each index exposes for
//! filtering, how documents are submitted for indexing, and how results of
//! a search over all indexes are merged.

use vstd::prelude::*;
use crate::config::Config;
use crate::text::{is_prefix, starts_with, views};
use crate::types::{
    Diff, Task, Page, IndexSettings, settings_view, diff_settings, task_settings, page_settings,
    diff_statuses, task_statuses, page_statuses, diff_rank, task_rank, page_rank,
};

verus! {

/// A search index.
#[derive(Debug, Clone, Copy, PartialEq, Eq, Structural)]
pub enum Index {
    Diffs,
    Tasks,
    Pages,
}

/// A search result from any index.
#[derive(Debug, Clone)]
pub enum Hit {
    Diff(Diff),
    Task(Task),
    Page(Page),
}

/// What to send to Meilisearch to (re)index one kind of document: the
/// documents go to `documents_url`, each with the rank at the same position
/// in `ranks`, and `settings` go to `settings_url`.
#[derive(Debug)]
pub struct IndexJob {
    pub index: Index,
    pub documents_url: String,
    pub settings_url: String,
    pub ranks: Vec<u32>,
    pub settings: IndexSettings,
}

/// The identifier of an index in Meilisearch.
pub open spec fn index_uid(index: Index) -> Seq<char> {
    match index {
        Index::Diffs => "ph_diffs"@,
        Index::Tasks => "ph_tasks"@,
        Index::Pages => "ph_pages"@,
    }
}

/// The field holding the user a document belongs to, where the index has one.
pub open spec fn index_user_field(index: Index) -> Option<Seq<char>> {
    match index {
        Index::Diffs => Some("author_id"@),
        Index::Tasks => Some("owner_id"@),
        Index::Pages => None,
    }
}

/// The field holding a document's status, where the index filters on it.
pub open spec fn index_status_field(index: Index) -> Option<Seq<char>> {
    match index {
        Index::Diffs => Some("status"@),
        Index::Tasks => Some("status"@),
        Index::Pages => None,
    }
}

/// The known statuses of an index's documents, in order of rank.
pub open spec fn index_statuses(index: Index) -> Seq<Seq<char>> {
    match index {
        Index::Diffs => diff_statuses(),
        Index::Tasks => task_statuses(),
        Index::Pages => page_statuses(),
    }
}

/// Some prefix in `prefixes` begins `s`.
pub open spec fn has_some_prefix(prefixes: Seq<Seq<char>>, s: Seq<char>) -> bool {
    exists|j: int| 0 <= j < prefixes.len() && is_prefix(#[trigger] prefixes[j], s)
}

/// The items that begin with some prefix in `prefixes`, in their order.
pub open spec fn keep_prefixed(items: Seq<Seq<char>>, prefixes: Seq<Seq<char>>) -> Seq<Seq<char>>
    decreases items.len(),
{
    if items.len() == 0 {
        seq![]
    } else {
        let rest = keep_prefixed(items.drop_last(), prefixes);
        if has_some_prefix(prefixes, items.last()) {
            rest.push(items.last())
        } else {
            rest
        }
    }
}

/// The address of an index's endpoint `suffix` (such as `/settings`).
pub open spec fn index_url(meili_url: Seq<char>, index: Index, suffix: Seq<char>) -> Seq<char> {
    meili_url + "/indexes/"@ + index_uid(index) + suffix
}

/// Whether `s` begins with one of `prefixes`.
fn starts_with_any(s: &str, prefixes: &[&str]) -> (r: bool)
    ensures
        r == has_some_prefix(views(prefixes@), s@),
{
    let n = prefixes.len();
    let mut j: usize = 0;
    while j < n
        invariant
            n == prefixes@.len(),
            j <= n,
            forall|t: int| 0 <= t < j ==> !is_prefix(#[trigger] views(prefixes@)[t], s@),
        decreases n - j,
    {
        if starts_with(s, prefixes[j]) {
            assert(is_prefix(views(prefixes@)[j as int], s@));
            return true;
        }
        j += 1;
    }
    false
}

/// The items of `items` that begin with one of `prefixes`, in order.
pub fn filter_prefixed(items: &[&'static str], prefixes: &[&str]) -> (r: Vec<&'static str>)
    ensures
        views(r@) == keep_prefixed(views(items@), views(prefixes@)),
{
    let n = items.len();
    let mut out: Vec<&'static str> = Vec::new();
    let mut i: usize = 0;
    while i < n
        invariant
            n == items@.len(),
            i <= n,
            views(out@) == keep_prefixed(views(items@).subrange(0, i as int), views(prefixes@)),
        decreases n - i,
    {
        let s = items[i];
        assert(views(items@).subrange(0, i + 1).drop_last() =~= views(items@).subrange(
            0,
            i as int,
        ));
        if starts_with_any(s, prefixes) {
            let ghost before = out@;
            out.push(s);
            assert(views(out@) =~= views(before).push(s@));
        }
        i += 1;
    }
    assert(views(items@).subrange(0, n as int) =~= views(items@));
    out
}

impl Index {
    /// All indexes.
    pub fn all() -> (r: [Index; 3])
        ensures
            r@ == seq![Index::Diffs, Index::Tasks, Index::Pages],
    {
        let r = [Index::Diffs, Index::Tasks, Index::Pages];
        assert(r@ =~= seq![Index::Diffs, Index::Tasks, Index::Pages]);
        r
    }

    /// The identifier of this index in Meilisearch.
    pub fn uid(&self) -> (r: &'static str)
        ensures
            r@ == index_uid(*self),
    {
        match self {
            Index::Diffs => "ph_diffs",
            Index::Tasks => "ph_tasks",
            Index::Pages => "ph_pages",
        }
    }

    /// The field holding the user a document belongs to, if any.
    pub fn user_field(&self) -> (r: Option<&'static str>)
        ensures
            match r {
                Some(f) => index_user_field(*self) == Some(f@),
                None => index_user_field(*self) is None,
            },
    {
        match self {
            Index::Diffs => Some("author_id"),
            Index::Tasks => Some("owner_id"),
            Index::Pages => None,
        }
    }

    /// The field holding a document's status, if the index filters on it.
    pub fn status_field(&self) -> (r: Option<&'static str>)
        ensures
            match r {
                Some(f) => index_status_field(*self) == Some(f@),
                None => index_status_field(*self) is None,
            },
    {
        match self {
            Index::Diffs => Some("status"),
            Index::Tasks => Some("status"),
            Index::Pages => None,
        }
    }

    /// The known statuses of this index's documents, in order of rank.
    pub fn statuses(&self) -> (r: &'static [&'static str])
        ensures
            views(r@) == index_statuses(*self),
    {
        match self {
            Index::Diffs => Diff::statuses(),
            Index::Tasks => Task::statuses(),
            Index::Pages => Page::statuses(),
        }
    }

    /// The known statuses that begin with one of `prefixes`, in order of rank.
    pub fn statuses_matching(&self, prefixes: &[&str]) -> (r: Vec<&'static str>)
        ensures
            views(r@) == keep_prefixed(index_statuses(*self), views(prefixes@)),
    {
        filter_prefixed(self.statuses(), prefixes)
    }

    /// The address that documents of this index are submitted to.
    pub fn documents_url(&self, config: &Config) -> (r: String)
        ensures
            r@ == index_url(config.meili_url@, *self, "/documents?primaryKey=id"@),
    {
        self.url(config, "/documents?primaryKey=id")
    }

    /// The address of this index's settings.
    pub fn settings_url(&self, config: &Config) -> (r: String)
        ensures
            r@ == index_url(config.meili_url@, *self, "/settings"@),
    {
        self.url(config, "/settings")
    }

    /// The address of this index's search endpoint.
    pub fn search_url(&self, config: &Config) -> (r: String)
        ensures
            r@ == index_url(config.meili_url@, *self, "/search"@),
    {
        self.url(config, "/search")
    }

    fn url(&self, config: &Config, suffix: &str) -> (r: String)
        ensures
            r@ == index_url(config.meili_url@, *self, suffix@),
    {
        let mut r = config.meili_url.clone();
        r.append("/indexes/");
        r.append(self.uid());
        r.append(suffix);
        r
    }
}

/// How many results to ask of each index when `limit` results are wanted
/// from all of them together: a third of the limit, but at least one.
pub open spec fn per_index(limit: nat) -> nat {
    if limit / 3 >= 1 {
        limit / 3
    } else {
        1
    }
}

/// The number of results to ask of each index for a search over all indexes.
pub fn per_index_limit(limit: usize) -> (r: usize)
    ensures
        r == per_index(limit as nat),
{
    let third = limit / 3;
    if third >= 1 {
        third
    } else {
        1
    }
}

/// The hits of the searches that succeeded, in order, concatenated.
pub open spec fn successful_hits(batches: Seq<Option<Vec<Hit>>>) -> Seq<Hit>
    decreases batches.len(),
{
    if batches.len() == 0 {
        seq![]
    } else {
        match batches[0] {
            Some(hits) => hits@ + successful_hits(batches.drop_first()),
            None => successful_hits(batches.drop_first()),
        }
    }
}

/// The first `limit` items of `s`, or all of them when there are fewer.
pub open spec fn at_most<T>(s: Seq<T>, limit: nat) -> Seq<T> {
    if s.len() <= limit {
        s
    } else {
        s.take(limit as int)
    }
}

/// Merges the per-index results of a search over all indexes: the hits of
/// the searches that succeeded (`Some`), in index order, cut to `limit`.
/// A failed search (`None`) contributes nothing.
pub fn merge_hits(batches: Vec<Option<Vec<Hit>>>, limit: usize) -> (r: Vec<Hit>)
    ensures
        r@ == at_most(successful_hits(batches@), limit as nat),
{
    let ghost whole = batches@;
    let mut rest = batches;
    let mut all: Vec<Hit> = Vec::new();
    while rest.len() > 0
        invariant
            all@ + successful_hits(rest@) == successful_hits(whole),
        decreases rest.len(),
    {
        let ghost before = rest@;
        let b = rest.remove(0);
        assert(rest@ =~= before.drop_first());
        match b {
            Some(hits) => {
                let mut hits = hits;
                let ghost prev = all@;
                all.append(&mut hits);
                assert(prev + (before[0]->0@ + successful_hits(rest@)) =~= all@ + successful_hits(
                    rest@,
                ));
            },
            None => {},
        }
    }
    assert(all@ =~= successful_hits(whole));
    all.truncate(limit);
    all
}

/// `job` submits documents with the given `ranks` and `settings` to `index`
/// of the Meilisearch instance that `config` names.
pub open spec fn is_job_for(
    job: IndexJob,
    config: Config,
    index: Index,
    ranks: Seq<u32>,
    settings: (Seq<Seq<char>>, Seq<Seq<char>>, Seq<Seq<char>>, Seq<Seq<char>>),
) -> bool {
    &&& job.index == index
    &&& job.documents_url@ == index_url(config.meili_url@, index, "/documents?primaryKey=id"@)
    &&& job.settings_url@ == index_url(config.meili_url@, index, "/settings"@)
    &&& job.ranks@ == ranks
    &&& settings_view(job.settings) == settings
}

/// The rank of each diff, in order.
pub open spec fn diff_ranks(diffs: Seq<Diff>) -> Seq<u32> {
    diffs.map_values(|d: Diff| diff_rank(d.status@))
}

/// The rank of each task, in order.
pub open spec fn task_ranks(tasks: Seq<Task>) -> Seq<u32> {
    tasks.map_values(|t: Task| task_rank(t.status@))
}

/// The rank of each page, in order.
pub open spec fn page_ranks(pages: Seq<Page>) -> Seq<u32> {
    pages.map_values(|p: Page| page_rank(p.status@))
}

fn new_job(config: &Config, index: Index, ranks: Vec<u32>, settings: IndexSettings) -> (r: IndexJob)
    ensures
        is_job_for(r, *config, index, ranks@, settings_view(settings)),
{
    IndexJob {
        index,
        documents_url: index.documents_url(config),
        settings_url: index.settings_url(config),
        ranks,
        settings,
    }
}

/// What to send to index `diffs`, each ranked by its status, with the diff
/// index's settings; nothing when there are no diffs.
pub fn index_diffs(config: &Config, diffs: &[Diff]) -> (r: Option<IndexJob>)
    ensures
        diffs@.len() == 0 <==> r is None,
        r matches Some(job) ==> is_job_for(
            job,
            *config,
            Index::Diffs,
            diff_ranks(diffs@),
            diff_settings(),
        ),
{
    if diffs.len() == 0 {
        return None;
    }
    let mut ranks: Vec<u32> = Vec::new();
    let n = diffs.len();
    let mut i: usize = 0;
    while i < n
        invariant
            n == diffs@.len(),
            i <= n,
            ranks@ =~= diff_ranks(diffs@).subrange(0, i as int),
        decreases n - i,
    {
        ranks.push(diffs[i].rank());
        i += 1;
    }
    assert(ranks@ =~= diff_ranks(diffs@));
    Some(new_job(config, Index::Diffs, ranks, Diff::settings()))
}

/// What to send to index `tasks`, each ranked by its status, with the task
/// index's settings; nothing when there are no tasks.
pub fn index_tasks(config: &Config, tasks: &[Task]) -> (r: Option<IndexJob>)
    ensures
        tasks@.len() == 0 <==> r is None,
        r matches Some(job) ==> is_job_for(
            job,
            *config,
            Index::Tasks,
            task_ranks(tasks@),
            task_settings(),
        ),
{
    if tasks.len() == 0 {
        return None;
    }
    let mut ranks: Vec<u32> = Vec::new();
    let n = tasks.len();
    let mut i: usize = 0;
    while i < n
        invariant
            n == tasks@.len(),
            i <= n,
            ranks@ =~= task_ranks(tasks@).subrange(0, i as int),
        decreases n - i,
    {
        ranks.push(tasks[i].rank());
        i += 1;
    }
    assert(ranks@ =~= task_ranks(tasks@));
    Some(new_job(config, Index::Tasks, ranks, Task::settings()))
}

/// What to send to index `pages`, each ranked by its status, with the wiki
/// page index's settings; nothing when there are no pages.
pub fn index_pages(config: &Config, pages: &[Page]) -> (r: Option<IndexJob>)
    ensures
        pages@.len() == 0 <==> r is None,
        r matches Some(job) ==> is_job_for(
            job,
            *config,
            Index::Pages,
            page_ranks(pages@),
            page_settings(),
        ),
{
    if pages.len() == 0 {
        return None;
    }
    let mut ranks: Vec<u32> = Vec::new();
    let n = pages.len();
    let mut i: usize = 0;
    while i < n
        invariant
            n == pages@.len(),
            i <= n,
            ranks@ =~= page_ranks(pages@).subrange(0, i as int),
        decreases n - i,
    {
        ranks.push(pages[i].rank());
        i += 1;
    }
    assert(ranks@ =~= page_ranks(pages@));
    Some(new_job(config, Index::Pages, ranks, Page::settings()))
}

/// Selecting by prefixes keeps exactly the items that begin with one of the
/// prefixes: a full status name, for one, always selects that status.
pub proof fn prefix_selection_keeps_exactly_the_prefixed(
    items: Seq<Seq<char>>,
    prefixes: Seq<Seq<char>>,
    x: Seq<char>,
)
    ensures
        keep_prefixed(items, prefixes).contains(x) <==> (items.contains(x) && has_some_prefix(
            prefixes,
            x,
        )),
    decreases items.len(),
{
    let keep = keep_prefixed(items, prefixes);
    if items.len() == 0 {
        assert(!keep.contains(x));
        assert(!items.contains(x));
    } else {
        let init = items.drop_last();
        let last = items.last();
        prefix_selection_keeps_exactly_the_prefixed(init, prefixes, x);
        let rest = keep_prefixed(init, prefixes);
        if has_some_prefix(prefixes, last) {
            assert(keep == rest.push(last));
        } else {
            assert(keep == rest);
        }
        if items.contains(x) && has_some_prefix(prefixes, x) {
            let k = choose|k: int| 0 <= k < items.len() && items[k] == x;
            if k < items.len() - 1 {
                assert(init[k] == x);
                assert(init.contains(x));
                let j = choose|j: int| 0 <= j < rest.len() && rest[j] == x;
                assert(keep[j] == x);
            } else {
                assert(last == x);
                assert(keep[rest.len() as int] == x);
            }
            assert(keep.contains(x));
        }
        if keep.contains(x) {
            let k = choose|k: int| 0 <= k < keep.len() && keep[k] == x;
            if k < rest.len() {
                assert(rest[k] == x);
                assert(rest.contains(x));
                let j = choose|j: int| 0 <= j < init.len() && init[j] == x;
                assert(items[j] == x);
            } else {
                assert(last == x);
                assert(items[items.len() - 1] == x);
            }
            assert(items.contains(x));
        }
    }
}

/// A search over all indexes asks each index for at least one result, and,
/// when at least three results are wanted, for no more than a third of them.
pub proof fn per_index_share_is_within_limit(limit: nat)
    ensures
        per_index(limit) >= 1,
        limit >= 3 ==> 3 * per_index(limit) <= limit,
{
}

/// The three indexes have distinct identifiers, so their documents and
/// settings never go to the same place.
pub proof fn index_uids_are_distinct(a: Index, b: Index)
    ensures
        index_uid(a) == index_uid(b) <==> a == b,
{
    reveal_strlit("ph_diffs");
    reveal_strlit("ph_tasks");
    reveal_strlit("ph_pages");
    assert("ph_diffs"@[3] != "ph_tasks"@[3]);
    assert("ph_diffs"@[3] != "ph_pages"@[3]);
    assert("ph_tasks"@[3] != "ph_pages"@[3]);
}

/// A search over all indexes lists the hits of every search that
/// succeeded, in index order: the hits of a run of batches are those of its
/// parts, one after the other; a successful batch contributes all its hits
/// and a failed one none.
pub proof fn merged_hits_concatenate_every_successful_search(
    first: Seq<Option<Vec<Hit>>>,
    second: Seq<Option<Vec<Hit>>>,
    hits: Vec<Hit>,
)
    ensures
        successful_hits(first + second) == successful_hits(first) + successful_hits(second),
        successful_hits(seq![Some(hits)]) == hits@,
        successful_hits(seq![None::<Vec<Hit>>]) == Seq::<Hit>::empty(),
        successful_hits(Seq::<Option<Vec<Hit>>>::empty()) == Seq::<Hit>::empty(),
    decreases first.len(),
{
    let none_left = Seq::<Option<Vec<Hit>>>::empty();
    assert(successful_hits(none_left) == Seq::<Hit>::empty());
    let one: Seq<Option<Vec<Hit>>> = seq![Some(hits)];
    assert(one.drop_first() =~= none_left);
    assert(one[0] == Some(hits));
    assert(hits@ + Seq::<Hit>::empty() =~= hits@);
    assert(successful_hits(one) == hits@);
    let failed: Seq<Option<Vec<Hit>>> = seq![None];
    assert(failed.drop_first() =~= none_left);
    assert(failed[0] is None);
    assert(successful_hits(failed) == Seq::<Hit>::empty());
    if first.len() == 0 {
        assert(first + second =~= second);
        assert(Seq::<Hit>::empty() + successful_hits(second) =~= successful_hits(second));
    } else {
        assert((first + second).drop_first() =~= first.drop_first() + second);
        assert((first + second)[0] == first[0]);
        merged_hits_concatenate_every_successful_search(first.drop_first(), second, hits);
        match first[0] {
            Some(h) => {
                assert(h@ + (successful_hits(first.drop_first()) + successful_hits(second)) =~= (h@
                    + successful_hits(first.drop_first())) + successful_hits(second));
            },
            None => {},
        }
    }
}

/// Cutting to a limit keeps the first `limit` items, in order, or all of
/// them when there are fewer.
pub proof fn cutting_to_a_limit_keeps_a_prefix<T>(s: Seq<T>, limit: nat)
    ensures
        at_most(s, limit).len() == (if s.len() < limit {
            s.len()
        } else {
            limit
        }),
        forall|i: int| 0 <= i < at_most(s, limit).len() ==> #[trigger] at_most(s, limit)[i] == s[i],
{
}

/// Every document is submitted with the rank of its own status, at its own
/// position.
pub proof fn each_document_gets_the_rank_of_its_status(
    diffs: Seq<Diff>,
    tasks: Seq<Task>,
    pages: Seq<Page>,
)
    ensures
        diff_ranks(diffs).len() == diffs.len(),
        forall|i: int|
            0 <= i < diffs.len() ==> #[trigger] diff_ranks(diffs)[i] == diff_rank(diffs[i].status@),
        task_ranks(tasks).len() == tasks.len(),
        forall|i: int|
            0 <= i < tasks.len() ==> #[trigger] task_ranks(tasks)[i] == task_rank(tasks[i].status@),
        page_ranks(pages).len() == pages.len(),
        forall|i: int|
            0 <= i < pages.len() ==> #[trigger] page_ranks(pages)[i] == page_rank(pages[i].status@),
{
}

/// Selecting by prefixes judges each item on its own and keeps the order:
/// the selection from two runs of items is the selection from the first
/// followed by that from the second, and a single item is kept exactly
/// when it begins with one of the prefixes.
pub proof fn prefix_selection_keeps_order(
    first: Seq<Seq<char>>,
    second: Seq<Seq<char>>,
    item: Seq<char>,
    prefixes: Seq<Seq<char>>,
)
    ensures
        keep_prefixed(first + second, prefixes) == keep_prefixed(first, prefixes) + keep_prefixed(
            second,
            prefixes,
        ),
        keep_prefixed(seq![item], prefixes) == (if has_some_prefix(prefixes, item) {
            seq![item]
        } else {
            Seq::<Seq<char>>::empty()
        }),
    decreases second.len(),
{
    let one: Seq<Seq<char>> = seq![item];
    assert(one.drop_last() =~= Seq::<Seq<char>>::empty());
    assert(one.last() == item);
    assert(Seq::<Seq<char>>::empty().push(item) =~= seq![item]);
    assert(keep_prefixed(Seq::<Seq<char>>::empty(), prefixes) == Seq::<Seq<char>>::empty());
    assert(keep_prefixed(one, prefixes) == if has_some_prefix(prefixes, item) {
        keep_prefixed(one.drop_last(), prefixes).push(item)
    } else {
        keep_prefixed(one.drop_last(), prefixes)
    });
    if second.len() == 0 {
        assert(first + second =~= first);
        assert(keep_prefixed(first, prefixes) + Seq::<Seq<char>>::empty() =~= keep_prefixed(
            first,
            prefixes,
        ));
    } else {
        prefix_selection_keeps_order(first, second.drop_last(), item, prefixes);
        assert((first + second).drop_last() =~= first + second.drop_last());
        assert((first + second).last() == second.last());
        assert((keep_prefixed(first, prefixes) + keep_prefixed(second.drop_last(), prefixes)).push(
            second.last(),
        ) =~= keep_prefixed(first, prefixes) + keep_prefixed(second.drop_last(), prefixes).push(
            second.last(),
        ));
    }
}

} // verus!
