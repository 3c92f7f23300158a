//! The records the workflow indexes and lists: users, repositories, diffs,
//! tasks and wiki pages, with the status vocabulary and ranking of each kind.

use vstd::prelude::*;
use crate::text::{lowercase, to_lowercase, views, str_eq};

verus! {

/// A user.
#[derive(Debug, Clone)]
pub struct User {
    pub id: String,
    pub handle: String,
    pub handle_lower: String,
}

/// A repository.
#[derive(Debug, Clone)]
pub struct Repo {
    pub id: String,
    pub name: String,
    pub description: Option<String>,
    pub uri: String,
    pub monogram: String,
    pub monogram_lower: String,
}

/// A diff.
#[derive(Debug, Clone)]
pub struct Diff {
    pub id: u32,
    pub title: String,
    pub author_id: String,
    pub status: String,
    pub repository_id: Option<String>,
    pub updated_at: i64,
}

/// A task.
#[derive(Debug, Clone)]
pub struct Task {
    pub id: u32,
    pub title: String,
    pub description: String,
    pub owner_id: Option<String>,
    pub status: String,
    pub updated_at: i64,
}

/// A wiki page.
#[derive(Debug, Clone)]
pub struct Page {
    pub id: u32,
    pub path: String,
    pub status: String,
    pub title: String,
    pub content: String,
}

/// The search settings of one index: which attributes are searched,
/// filtered on and sorted by, and the ranking rules in order.
#[derive(Debug, Clone)]
pub struct IndexSettings {
    pub searchable_attributes: Vec<&'static str>,
    pub filterable_attributes: Vec<&'static str>,
    pub ranking_rules: Vec<&'static str>,
    pub sortable_attributes: Vec<&'static str>,
}

/// No two users share an id (users are known by their id).
pub open spec fn distinct_ids(users: Seq<User>) -> bool {
    forall|i: int, j: int|
        0 <= i < j < users.len() ==> (#[trigger] users[i]).id@ != (#[trigger] users[j]).id@
}

impl User {
    /// A user with the given id and handle; `handle_lower` is the lower-cased handle.
    pub fn new(id: String, handle: String) -> (r: User)
        ensures
            r.id@ == id@,
            r.handle@ == handle@,
            r.handle_lower@ == lowercase(handle@),
    {
        let handle_lower = to_lowercase(handle.as_str());
        User { id, handle, handle_lower }
    }
}

/// The statuses a diff can have, in order of rank.
pub open spec fn diff_statuses() -> Seq<Seq<char>> {
    seq![
        "needs-review"@,
        "needs-revision"@,
        "changes-planned"@,
        "accepted"@,
        "published"@,
        "abandoned"@,
    ]
}

/// The rank of a diff status: smaller ranks sort first; unknown statuses get 50.
pub open spec fn diff_rank(status: Seq<char>) -> u32 {
    if status == "needs-review"@ {
        1
    } else if status == "needs-revision"@ {
        2
    } else if status == "changes-planned"@ {
        3
    } else if status == "accepted"@ {
        4
    } else if status == "published"@ {
        5
    } else if status == "abandoned"@ {
        100
    } else {
        50
    }
}

/// The statuses a task can have, in order of rank.
pub open spec fn task_statuses() -> Seq<Seq<char>> {
    seq!["open"@, "resolved"@, "wontfix"@, "invalid"@, "duplicate"@, "spite"@]
}

/// The rank of a task status: smaller ranks sort first; unknown statuses get 50.
pub open spec fn task_rank(status: Seq<char>) -> u32 {
    if status == "open"@ {
        1
    } else if status == "resolved"@ {
        100
    } else if status == "wontfix"@ {
        101
    } else if status == "invalid"@ {
        102
    } else if status == "duplicate"@ {
        103
    } else if status == "spite"@ {
        104
    } else {
        50
    }
}

/// The statuses a wiki page can have, in order of rank.
pub open spec fn page_statuses() -> Seq<Seq<char>> {
    seq!["active"@, "moved"@, "deleted"@]
}

/// The rank of a wiki page status: smaller ranks sort first; unknown statuses get 50.
pub open spec fn page_rank(status: Seq<char>) -> u32 {
    if status == "active"@ {
        1
    } else if status == "moved"@ {
        100
    } else if status == "deleted"@ {
        101
    } else {
        50
    }
}

impl Diff {
    /// The known diff statuses, in order of rank.
    pub fn statuses() -> (r: &'static [&'static str])
        ensures
            views(r@) == diff_statuses(),
    {
        let r: &'static [&'static str] = &[
            "needs-review",
            "needs-revision",
            "changes-planned",
            "accepted",
            "published",
            "abandoned",
        ];
        assert(views(r@) =~= diff_statuses());
        r
    }

    /// The rank of this diff's status.
    pub fn rank(&self) -> (r: u32)
        ensures
            r == diff_rank(self.status@),
    {
        let s = self.status.as_str();
        if str_eq(s, "needs-review") {
            1
        } else if str_eq(s, "needs-revision") {
            2
        } else if str_eq(s, "changes-planned") {
            3
        } else if str_eq(s, "accepted") {
            4
        } else if str_eq(s, "published") {
            5
        } else if str_eq(s, "abandoned") {
            100
        } else {
            50
        }
    }
}


impl Task {
    /// The known task statuses, in order of rank.
    pub fn statuses() -> (r: &'static [&'static str])
        ensures
            views(r@) == task_statuses(),
    {
        let r: &'static [&'static str] = &[
            "open",
            "resolved",
            "wontfix",
            "invalid",
            "duplicate",
            "spite",
        ];
        assert(views(r@) =~= task_statuses());
        r
    }

    /// The rank of the task's status.
    pub fn rank(&self) -> (r: u32)
        ensures
            r == task_rank(self.status@),
    {
        let s = self.status.as_str();
        if str_eq(s, "open") {
            1
        } else if str_eq(s, "resolved") {
            100
        } else if str_eq(s, "wontfix") {
            101
        } else if str_eq(s, "invalid") {
            102
        } else if str_eq(s, "duplicate") {
            103
        } else if str_eq(s, "spite") {
            104
        } else {
            50
        }
    }
}

impl Page {
    /// The known wiki page statuses, in order of rank.
    pub fn statuses() -> (r: &'static [&'static str])
        ensures
            views(r@) == page_statuses(),
    {
        let r: &'static [&'static str] = &["active", "moved", "deleted"];
        assert(views(r@) =~= page_statuses());
        r
    }

    /// The rank of this page's status.
    pub fn rank(&self) -> (r: u32)
        ensures
            r == page_rank(self.status@),
    {
        let s = self.status.as_str();
        if str_eq(s, "active") {
            1
        } else if str_eq(s, "moved") {
            100
        } else if str_eq(s, "deleted") {
            101
        } else {
            50
        }
    }
}

impl Page {
    /// Whether a Phabricator document of type `typ` is a wiki page (the
    /// other documents are not indexed).
    pub fn is_wiki_type(typ: &str) -> (r: bool)
        ensures
            r == (typ@ == "WIKI"@),
    {
        str_eq(typ, "WIKI")
    }
}

/// The ranking rules shared by the diff and task indexes.
pub open spec fn dated_ranking_rules() -> Seq<Seq<char>> {
    seq![
        "rank:asc"@,
        "updated_at:desc"@,
        "words"@,
        "typo"@,
        "proximity"@,
        "attribute"@,
        "sort"@,
        "exactness"@,
    ]
}

/// The ranking rules of the wiki page index (pages carry no update time).
pub open spec fn page_ranking_rules() -> Seq<Seq<char>> {
    seq!["rank:asc"@, "words"@, "typo"@, "proximity"@, "attribute"@, "sort"@, "exactness"@]
}

fn dated_rules() -> (r: Vec<&'static str>)
    ensures
        views(r@) == dated_ranking_rules(),
{
    let r = vec![
        "rank:asc",
        "updated_at:desc",
        "words",
        "typo",
        "proximity",
        "attribute",
        "sort",
        "exactness",
    ];
    assert(views(r@) =~= dated_ranking_rules());
    r
}

/// The views of an index's settings, in the order searchable, filterable,
/// ranking rules, sortable.
pub open spec fn settings_view(s: IndexSettings) -> (
    Seq<Seq<char>>,
    Seq<Seq<char>>,
    Seq<Seq<char>>,
    Seq<Seq<char>>,
) {
    (
        views(s.searchable_attributes@),
        views(s.filterable_attributes@),
        views(s.ranking_rules@),
        views(s.sortable_attributes@),
    )
}

/// The settings of the diff index, as views.
pub open spec fn diff_settings() -> (
    Seq<Seq<char>>,
    Seq<Seq<char>>,
    Seq<Seq<char>>,
    Seq<Seq<char>>,
) {
    (
        seq!["title"@],
        seq!["author_id"@, "status"@, "repository_id"@],
        dated_ranking_rules(),
        seq!["updated_at"@, "rank"@]
    )
}

/// The settings of the task index, as views.
pub open spec fn task_settings() -> (
    Seq<Seq<char>>,
    Seq<Seq<char>>,
    Seq<Seq<char>>,
    Seq<Seq<char>>,
) {
    (
        seq!["title"@, "description"@],
        seq!["owner_id"@, "status"@],
        dated_ranking_rules(),
        seq!["updated_at"@, "rank"@]
    )
}

/// The settings of the wiki page index, as views.
pub open spec fn page_settings() -> (
    Seq<Seq<char>>,
    Seq<Seq<char>>,
    Seq<Seq<char>>,
    Seq<Seq<char>>,
) {
    (
        seq!["title"@, "path"@, "content"@],
        seq!["status"@],
        page_ranking_rules(),
        seq!["rank"@]
    )
}

impl Diff {
    /// The search settings of the diff index: titles are searched; author,
    /// status and repository are filters; results rank by status, then recency.
    pub fn settings() -> (r: IndexSettings)
        ensures
            settings_view(r) == diff_settings(),
    {
        let searchable_attributes = vec!["title"];
        let filterable_attributes = vec!["author_id", "status", "repository_id"];
        let sortable_attributes = vec!["updated_at", "rank"];
        let r = IndexSettings {
            searchable_attributes,
            filterable_attributes,
            ranking_rules: dated_rules(),
            sortable_attributes,
        };
        assert(views(r.searchable_attributes@) =~= seq!["title"@]);
        assert(views(r.filterable_attributes@) =~= seq!["author_id"@, "status"@, "repository_id"@]);
        assert(views(r.sortable_attributes@) =~= seq!["updated_at"@, "rank"@]);
        r
    }
}

impl Task {
    /// The search settings of the task index: titles and descriptions are
    /// searched; owner and status are filters; results rank by status, then recency.
    pub fn settings() -> (r: IndexSettings)
        ensures
            settings_view(r) == task_settings(),
    {
        let searchable_attributes = vec!["title", "description"];
        let filterable_attributes = vec!["owner_id", "status"];
        let sortable_attributes = vec!["updated_at", "rank"];
        let r = IndexSettings {
            searchable_attributes,
            filterable_attributes,
            ranking_rules: dated_rules(),
            sortable_attributes,
        };
        assert(views(r.searchable_attributes@) =~= seq!["title"@, "description"@]);
        assert(views(r.filterable_attributes@) =~= seq!["owner_id"@, "status"@]);
        assert(views(r.sortable_attributes@) =~= seq!["updated_at"@, "rank"@]);
        r
    }
}

impl Page {
    /// The search settings of the wiki page index: titles, paths and contents
    /// are searched; status is a filter; results rank by status.
    pub fn settings() -> (r: IndexSettings)
        ensures
            settings_view(r) == page_settings(),
    {
        let searchable_attributes = vec!["title", "path", "content"];
        let filterable_attributes = vec!["status"];
        let ranking_rules = vec![
            "rank:asc",
            "words",
            "typo",
            "proximity",
            "attribute",
            "sort",
            "exactness",
        ];
        let sortable_attributes = vec!["rank"];
        let r = IndexSettings {
            searchable_attributes,
            filterable_attributes,
            ranking_rules,
            sortable_attributes,
        };
        assert(views(r.searchable_attributes@) =~= seq!["title"@, "path"@, "content"@]);
        assert(views(r.filterable_attributes@) =~= seq!["status"@]);
        assert(views(r.ranking_rules@) =~= page_ranking_rules());
        assert(views(r.sortable_attributes@) =~= seq!["rank"@]);
        r
    }
}

proof fn lemma_diff_ranks()
    ensures
        diff_rank(diff_statuses()[0]) == 1,
        diff_rank(diff_statuses()[1]) == 2,
        diff_rank(diff_statuses()[2]) == 3,
        diff_rank(diff_statuses()[3]) == 4,
        diff_rank(diff_statuses()[4]) == 5,
        diff_rank(diff_statuses()[5]) == 100,
{
    reveal_strlit("needs-review");
    reveal_strlit("needs-revision");
    reveal_strlit("changes-planned");
    reveal_strlit("accepted");
    reveal_strlit("published");
    reveal_strlit("abandoned");
    assert("needs-revision"@ != "needs-review"@) by {
        assert("needs-revision"@[10] != "needs-review"@[10]);
    }
    assert("changes-planned"@ != "needs-review"@) by {
        assert("changes-planned"@[0] != "needs-review"@[0]);
    }
    assert("changes-planned"@ != "needs-revision"@) by {
        assert("changes-planned"@[0] != "needs-revision"@[0]);
    }
    assert("accepted"@ != "needs-review"@) by {
        assert("accepted"@[0] != "needs-review"@[0]);
    }
    assert("accepted"@ != "needs-revision"@) by {
        assert("accepted"@[0] != "needs-revision"@[0]);
    }
    assert("accepted"@ != "changes-planned"@) by {
        assert("accepted"@[0] != "changes-planned"@[0]);
    }
    assert("published"@ != "needs-review"@) by {
        assert("published"@[0] != "needs-review"@[0]);
    }
    assert("published"@ != "needs-revision"@) by {
        assert("published"@[0] != "needs-revision"@[0]);
    }
    assert("published"@ != "changes-planned"@) by {
        assert("published"@[0] != "changes-planned"@[0]);
    }
    assert("published"@ != "accepted"@) by {
        assert("published"@[0] != "accepted"@[0]);
    }
    assert("abandoned"@ != "needs-review"@) by {
        assert("abandoned"@[0] != "needs-review"@[0]);
    }
    assert("abandoned"@ != "needs-revision"@) by {
        assert("abandoned"@[0] != "needs-revision"@[0]);
    }
    assert("abandoned"@ != "changes-planned"@) by {
        assert("abandoned"@[0] != "changes-planned"@[0]);
    }
    assert("abandoned"@ != "accepted"@) by {
        assert("abandoned"@[1] != "accepted"@[1]);
    }
    assert("abandoned"@ != "published"@) by {
        assert("abandoned"@[0] != "published"@[0]);
    }
}

proof fn lemma_task_ranks()
    ensures
        task_rank(task_statuses()[0]) == 1,
        task_rank(task_statuses()[1]) == 100,
        task_rank(task_statuses()[2]) == 101,
        task_rank(task_statuses()[3]) == 102,
        task_rank(task_statuses()[4]) == 103,
        task_rank(task_statuses()[5]) == 104,
{
    reveal_strlit("open");
    reveal_strlit("resolved");
    reveal_strlit("wontfix");
    reveal_strlit("invalid");
    reveal_strlit("duplicate");
    reveal_strlit("spite");
    assert("resolved"@ != "open"@) by {
        assert("resolved"@[0] != "open"@[0]);
    }
    assert("wontfix"@ != "open"@) by {
        assert("wontfix"@[0] != "open"@[0]);
    }
    assert("wontfix"@ != "resolved"@) by {
        assert("wontfix"@[0] != "resolved"@[0]);
    }
    assert("invalid"@ != "open"@) by {
        assert("invalid"@[0] != "open"@[0]);
    }
    assert("invalid"@ != "resolved"@) by {
        assert("invalid"@[0] != "resolved"@[0]);
    }
    assert("invalid"@ != "wontfix"@) by {
        assert("invalid"@[0] != "wontfix"@[0]);
    }
    assert("duplicate"@ != "open"@) by {
        assert("duplicate"@[0] != "open"@[0]);
    }
    assert("duplicate"@ != "resolved"@) by {
        assert("duplicate"@[0] != "resolved"@[0]);
    }
    assert("duplicate"@ != "wontfix"@) by {
        assert("duplicate"@[0] != "wontfix"@[0]);
    }
    assert("duplicate"@ != "invalid"@) by {
        assert("duplicate"@[0] != "invalid"@[0]);
    }
    assert("spite"@ != "open"@) by {
        assert("spite"@[0] != "open"@[0]);
    }
    assert("spite"@ != "resolved"@) by {
        assert("spite"@[0] != "resolved"@[0]);
    }
    assert("spite"@ != "wontfix"@) by {
        assert("spite"@[0] != "wontfix"@[0]);
    }
    assert("spite"@ != "invalid"@) by {
        assert("spite"@[0] != "invalid"@[0]);
    }
    assert("spite"@ != "duplicate"@) by {
        assert("spite"@[0] != "duplicate"@[0]);
    }
}

proof fn lemma_page_ranks()
    ensures
        page_rank(page_statuses()[0]) == 1,
        page_rank(page_statuses()[1]) == 100,
        page_rank(page_statuses()[2]) == 101,
{
    reveal_strlit("active");
    reveal_strlit("moved");
    reveal_strlit("deleted");
    assert("moved"@ != "active"@) by {
        assert("moved"@[0] != "active"@[0]);
    }
    assert("deleted"@ != "active"@) by {
        assert("deleted"@[0] != "active"@[0]);
    }
    assert("deleted"@ != "moved"@) by {
        assert("deleted"@[0] != "moved"@[0]);
    }
}

/// The known statuses of each kind are listed in strictly increasing rank
/// order, and every one of them has an explicit rank (none falls back to the
/// medium rank 50 that unknown statuses get).
pub proof fn statuses_listed_in_rank_order(i: int, j: int)
    ensures
        0 <= i < j < diff_statuses().len() ==> diff_rank(diff_statuses()[i]) < diff_rank(
            diff_statuses()[j],
        ),
        0 <= i < j < task_statuses().len() ==> task_rank(task_statuses()[i]) < task_rank(
            task_statuses()[j],
        ),
        0 <= i < j < page_statuses().len() ==> page_rank(page_statuses()[i]) < page_rank(
            page_statuses()[j],
        ),
        0 <= i < diff_statuses().len() ==> diff_rank(diff_statuses()[i]) != 50,
        0 <= i < task_statuses().len() ==> task_rank(task_statuses()[i]) != 50,
        0 <= i < page_statuses().len() ==> page_rank(page_statuses()[i]) != 50,
{
    lemma_diff_ranks();
    lemma_task_ranks();
    lemma_page_ranks();
}

} // verus!
