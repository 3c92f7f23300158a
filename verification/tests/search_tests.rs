use ph::command::{route, route_normalized, Command, Plan, Route, RESULT_LIMIT};
use ph::config::Config;
use ph::meili::{index_diffs, index_pages, index_tasks, merge_hits, per_index_limit, Hit, Index};
use ph::query::{build_query_filter, filter_contains, handles_matching, parse_query};
use ph::types::{Diff, Page, Task, User};

fn users() -> Vec<User> {
    vec![
        User::new("PHID-USER-1".to_string(), "Alice".to_string()),
        User::new("PHID-USER-2".to_string(), "alfred".to_string()),
        User::new("PHID-USER-3".to_string(), "Bob".to_string()),
    ]
}

fn config() -> Config {
    Config::from_arcrc(
        "https://ph.example.com/",
        Some(("https://ph.example.com/api/".to_string(), "tok".to_string())),
        None,
        Some("key".to_string()),
    )
    .unwrap()
}

fn diff(id: u32, status: &str) -> Diff {
    Diff {
        id,
        title: format!("diff {id}"),
        author_id: "PHID-USER-1".to_string(),
        status: status.to_string(),
        repository_id: None,
        updated_at: 0,
    }
}

#[test]
fn parse_query_sorts_words_by_marker() {
    let (handles, statuses, not_statuses, text) =
        parse_query("fix @alice +open  -resolved crash @ + - @bob");
    assert_eq!(handles, vec!["alice", "bob"]);
    assert_eq!(statuses, vec!["open"]);
    assert_eq!(not_statuses, vec!["resolved"]);
    assert_eq!(text, "fix crash @ + -");
}

#[test]
fn parse_query_of_blank_query() {
    let (h, s, n, t) = parse_query("   ");
    assert!(h.is_empty() && s.is_empty() && n.is_empty());
    assert_eq!(t, "");
}

#[test]
fn filter_contains_builds_in_lists() {
    assert_eq!(
        filter_contains("status", &["open", "resolved"], false).unwrap(),
        "status IN [\"open\",\"resolved\",]"
    );
    assert_eq!(
        filter_contains("status", &["open"], true).unwrap(),
        "status NOT IN [\"open\",]"
    );
    assert_eq!(filter_contains("status", &[], false), None);
}

#[test]
fn handles_match_by_lowercase_prefix() {
    let us = users();
    assert_eq!(handles_matching(&us, &["al"]), vec!["PHID-USER-1", "PHID-USER-2"]);
    assert_eq!(handles_matching(&us, &["bo", "alice"]), vec!["PHID-USER-1", "PHID-USER-3"]);
    assert!(handles_matching(&us, &["Al"]).is_empty());
}

#[test]
fn statuses_matching_keeps_rank_order() {
    assert_eq!(Index::Diffs.statuses_matching(&["needs"]), vec!["needs-review", "needs-revision"]);
    assert_eq!(Index::Tasks.statuses_matching(&["open"]), vec!["open"]);
    assert_eq!(Index::Tasks.statuses_matching(&["zzz"]), Vec::<&str>::new());
    assert_eq!(Index::Pages.statuses_matching(&["a", "d"]), vec!["active", "deleted"]);
}

#[test]
fn diffs_filtered_by_author() {
    let (text, filter) = build_query_filter(&users(), Index::Diffs, "@alice crash").unwrap();
    assert_eq!(text, "crash");
    assert_eq!(filter.unwrap(), "author_id IN [\"PHID-USER-1\",]");
}

#[test]
fn tasks_filtered_by_owner_and_status() {
    let (text, filter) =
        build_query_filter(&users(), Index::Tasks, "+open @bob -dup login").unwrap();
    assert_eq!(text, "login");
    assert_eq!(
        filter.unwrap(),
        "owner_id IN [\"PHID-USER-3\",] AND status IN [\"open\",] AND status NOT IN [\"duplicate\",]"
    );
}

#[test]
fn diffs_needing_review() {
    let (_, filter) = build_query_filter(&users(), Index::Diffs, "+needs-review").unwrap();
    assert_eq!(filter.unwrap(), "status IN [\"needs-review\",]");
    let (_, filter) = build_query_filter(&users(), Index::Diffs, "+accepted").unwrap();
    assert_eq!(filter.unwrap(), "status IN [\"accepted\",]");
}

#[test]
fn unmatched_user_or_status_finds_nothing() {
    assert!(build_query_filter(&users(), Index::Diffs, "@nobody").is_none());
    assert!(build_query_filter(&users(), Index::Tasks, "+nosuch").is_none());
}

#[test]
fn unmatched_exclusion_is_ignored() {
    let (text, filter) = build_query_filter(&users(), Index::Tasks, "-nosuch x").unwrap();
    assert_eq!(text, "x");
    assert_eq!(filter.unwrap(), "");
}

#[test]
fn wiki_ignores_user_and_status_filters() {
    let (text, filter) = build_query_filter(&users(), Index::Pages, "@nobody +x -y guide").unwrap();
    assert_eq!(text, "guide");
    assert_eq!(filter.unwrap(), "");
}

#[test]
fn plain_query_has_empty_filter() {
    let (text, filter) = build_query_filter(&users(), Index::Diffs, "  fix   the bug ").unwrap();
    assert_eq!(text, "fix the bug");
    assert_eq!(filter.unwrap(), "");
}

#[test]
fn index_identifiers_and_addresses() {
    let c = config();
    assert_eq!(Index::all().map(|i| i.uid()), ["ph_diffs", "ph_tasks", "ph_pages"]);
    assert_eq!(
        Index::Diffs.documents_url(&c),
        "http://localhost:7700/indexes/ph_diffs/documents?primaryKey=id"
    );
    assert_eq!(Index::Tasks.settings_url(&c), "http://localhost:7700/indexes/ph_tasks/settings");
    assert_eq!(Index::Pages.search_url(&c), "http://localhost:7700/indexes/ph_pages/search");
    assert_eq!(Index::Diffs.user_field(), Some("author_id"));
    assert_eq!(Index::Tasks.user_field(), Some("owner_id"));
    assert_eq!(Index::Pages.user_field(), None);
    assert_eq!(Index::Tasks.status_field(), Some("status"));
    assert_eq!(Index::Pages.status_field(), None);
}

#[test]
fn indexing_nothing_sends_nothing() {
    assert!(index_diffs(&config(), &[]).is_none());
    assert!(index_tasks(&config(), &[]).is_none());
    assert!(index_pages(&config(), &[]).is_none());
}

#[test]
fn indexing_diffs_ranks_each_document() {
    let diffs = vec![diff(1, "accepted"), diff(2, "abandoned"), diff(3, "weird")];
    let job = index_diffs(&config(), &diffs).unwrap();
    assert_eq!(job.index, Index::Diffs);
    assert_eq!(job.ranks, vec![4, 100, 50]);
    assert_eq!(job.documents_url, "http://localhost:7700/indexes/ph_diffs/documents?primaryKey=id");
    assert_eq!(job.settings_url, "http://localhost:7700/indexes/ph_diffs/settings");
    assert_eq!(job.settings.searchable_attributes, vec!["title"]);
}

#[test]
fn indexing_tasks_and_pages() {
    let tasks = vec![Task {
        id: 7,
        title: "t".to_string(),
        description: String::new(),
        owner_id: None,
        status: "wontfix".to_string(),
        updated_at: 0,
    }];
    let job = index_tasks(&config(), &tasks).unwrap();
    assert_eq!(job.ranks, vec![101]);
    assert_eq!(job.index, Index::Tasks);
    let pages = vec![Page {
        id: 1,
        path: "a/".to_string(),
        status: "moved".to_string(),
        title: "A".to_string(),
        content: String::new(),
    }];
    let job = index_pages(&config(), &pages).unwrap();
    assert_eq!(job.ranks, vec![100]);
    assert_eq!(job.settings.ranking_rules[0], "rank:asc");
}

#[test]
fn per_index_share() {
    assert_eq!(per_index_limit(20), 6);
    assert_eq!(per_index_limit(3), 1);
    assert_eq!(per_index_limit(2), 1);
    assert_eq!(per_index_limit(0), 1);
}

#[test]
fn merging_keeps_successful_hits_in_order_up_to_limit() {
    let batches = vec![
        Some(vec![Hit::Diff(diff(1, "accepted")), Hit::Diff(diff(2, "accepted"))]),
        None,
        Some(vec![Hit::Diff(diff(3, "accepted"))]),
    ];
    let merged = merge_hits(batches, 2);
    let ids: Vec<u32> = merged
        .iter()
        .map(|h| match h {
            Hit::Diff(d) => d.id,
            _ => 0,
        })
        .collect();
    assert_eq!(ids, vec![1, 2]);
    assert_eq!(merge_hits(vec![None, Some(vec![Hit::Diff(diff(9, "x"))])], 20).len(), 1);
}

#[test]
fn no_argument_offers_all_commands() {
    match route(None) {
        Route::Offer(v) => assert_eq!(
            v,
            vec![Command::Diffs, Command::Tasks, Command::Pages, Command::Repos, Command::Search]
        ),
        r => panic!("{r:?}"),
    }
}

#[test]
fn full_command_name_runs_it() {
    match route(Some("  DIFFS  Fix Crash ")) {
        Route::Run(c, q) => {
            assert_eq!(c, Command::Diffs);
            assert_eq!(q, " fix crash");
        }
        r => panic!("{r:?}"),
    }
    match route_normalized("wiki") {
        Route::Run(c, q) => {
            assert_eq!(c, Command::Pages);
            assert_eq!(q, "");
        }
        r => panic!("{r:?}"),
    }
}

#[test]
fn half_entered_command_offers_candidates() {
    match route(Some("s")) {
        Route::Offer(v) => assert_eq!(v, vec![Command::Search]),
        r => panic!("{r:?}"),
    }
    match route(Some("")) {
        Route::Offer(v) => assert_eq!(v.len(), 5),
        r => panic!("{r:?}"),
    }
    match route(Some("xyz foo")) {
        Route::Unknown(cmd) => assert_eq!(cmd, "xyz"),
        r => panic!("{r:?}"),
    }
}

#[test]
fn repository_command_is_repo() {
    let names: Vec<&str> = Command::all().iter().map(|c| c.name()).collect();
    assert_eq!(names, vec!["diffs", "tasks", "wiki", "repo", "search"]);
    match route(Some("repo core")) {
        Route::Run(c, q) => {
            assert_eq!(c, Command::Repos);
            assert_eq!(q, "core");
        }
        r => panic!("{r:?}"),
    }
    match route(Some("re")) {
        Route::Offer(v) => assert_eq!(v, vec![Command::Repos]),
        r => panic!("{r:?}"),
    }
    match route(Some("repos")) {
        Route::Unknown(cmd) => assert_eq!(cmd, "repos"),
        r => panic!("{r:?}"),
    }
}

#[test]
fn command_texts() {
    assert_eq!(Command::Pages.name(), "wiki");
    assert_eq!(Command::Repos.subtitle(), "Search repositories");
    assert_eq!(Command::Search.icon(), "./assets/search.png");
    assert_eq!(Command::Tasks.index(), Some(Index::Tasks));
    assert_eq!(Command::Search.index(), None);
}

#[test]
fn command_plans() {
    match Command::Diffs.plan(&users(), "@bob x") {
        Plan::SearchIndex { index, text, filter, limit } => {
            assert_eq!(index, Index::Diffs);
            assert_eq!(text, "x");
            assert_eq!(filter.unwrap(), "author_id IN [\"PHID-USER-3\",]");
            assert_eq!(limit, RESULT_LIMIT);
        }
        p => panic!("{p:?}"),
    }
    assert!(matches!(Command::Tasks.plan(&users(), "@zed"), Plan::Nothing));
    assert!(matches!(Command::Repos.plan(&users(), "x"), Plan::Repositories { limit: 20 }));
    assert!(matches!(Command::Search.plan(&users(), "x"), Plan::SearchAll { limit: 20 }));
}
