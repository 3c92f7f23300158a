use ph::config::Config;
use ph::meili::Hit;
use ph::phab::{after_page, checksum, page_form, request_form, update_form, PageStep, Source};
use ph::types::{Diff, Page, Repo, Task, User};
use ph::command::Command;
use ph::entry::{format_ago, matching_repos, words_all_occur};

fn config() -> Config {
    Config::from_arcrc(
        "https://ph.example.com//",
        Some(("https://ph.example.com/api/".to_string(), "tok".to_string())),
        Some("http://meili:7700".to_string()),
        None,
    )
    .unwrap()
}

fn repo(name: &str, description: Option<&str>) -> Repo {
    Repo {
        id: String::new(),
        name: name.to_string(),
        description: description.map(|d| d.to_string()),
        uri: format!("https://ph.example.com/source/{name}/"),
        monogram: String::new(),
        monogram_lower: String::new(),
    }
}

#[test]
fn config_trims_trailing_slashes() {
    let c = config();
    assert_eq!(c.ph_base_url, "https://ph.example.com");
    assert_eq!(c.ph_api_url, "https://ph.example.com/api");
    assert_eq!(c.ph_api_token, "tok");
    assert_eq!(c.meili_url, "http://meili:7700");
    assert_eq!(c.meili_key, "");
    assert_eq!(c.api_endpoint("/user.search"), "https://ph.example.com/api/user.search");
    assert_eq!(c.meili_authorization(), "Bearer ");
}

#[test]
fn config_defaults_and_missing_host() {
    let c = Config::from_arcrc("x", Some(("y".to_string(), "t".to_string())), None, Some("k".to_string()))
        .unwrap();
    assert_eq!(c.meili_url, "http://localhost:7700");
    assert_eq!(c.meili_authorization(), "Bearer k");
    assert!(Config::from_arcrc("x", None, None, None).is_none());
}

#[test]
fn user_handle_is_lowercased() {
    let u = User::new("PHID-USER-9".to_string(), "ÉLodie".to_string());
    assert_eq!(u.handle, "ÉLodie");
    assert_eq!(u.handle_lower, "élodie");
}

#[test]
fn status_ranks() {
    let ranks: Vec<u32> = Diff::statuses()
        .iter()
        .map(|s| Diff { id: 0, title: String::new(), author_id: String::new(), status: s.to_string(), repository_id: None, updated_at: 0 }.rank())
        .collect();
    assert_eq!(ranks, vec![1, 2, 3, 4, 5, 100]);
    let ranks: Vec<u32> = Task::statuses()
        .iter()
        .map(|s| Task { id: 0, title: String::new(), description: String::new(), owner_id: None, status: s.to_string(), updated_at: 0 }.rank())
        .collect();
    assert_eq!(ranks, vec![1, 100, 101, 102, 103, 104]);
    let ranks: Vec<u32> = Page::statuses()
        .iter()
        .map(|s| Page { id: 0, path: String::new(), status: s.to_string(), title: String::new(), content: String::new() }.rank())
        .collect();
    assert_eq!(ranks, vec![1, 100, 101]);
    let unknown = Page { id: 0, path: String::new(), status: "Active".to_string(), title: String::new(), content: String::new() };
    assert_eq!(unknown.rank(), 50);
}

#[test]
fn status_vocabularies() {
    assert_eq!(Diff::statuses(), &["needs-review", "needs-revision", "changes-planned", "accepted", "published", "abandoned"]);
    assert_eq!(Task::statuses(), &["open", "resolved", "wontfix", "invalid", "duplicate", "spite"]);
    assert_eq!(Page::statuses(), &["active", "moved", "deleted"]);
}

#[test]
fn index_settings() {
    let d = Diff::settings();
    assert_eq!(d.filterable_attributes, vec!["author_id", "status", "repository_id"]);
    assert_eq!(d.ranking_rules, vec!["rank:asc", "updated_at:desc", "words", "typo", "proximity", "attribute", "sort", "exactness"]);
    assert_eq!(d.sortable_attributes, vec!["updated_at", "rank"]);
    let t = Task::settings();
    assert_eq!(t.searchable_attributes, vec!["title", "description"]);
    assert_eq!(t.filterable_attributes, vec!["owner_id", "status"]);
    let p = Page::settings();
    assert_eq!(p.searchable_attributes, vec!["title", "path", "content"]);
    assert_eq!(p.ranking_rules, vec!["rank:asc", "words", "typo", "proximity", "attribute", "sort", "exactness"]);
    assert_eq!(p.sortable_attributes, vec!["rank"]);
}

#[test]
fn wiki_type() {
    assert!(Page::is_wiki_type("WIKI"));
    assert!(!Page::is_wiki_type("wiki"));
    assert!(!Page::is_wiki_type(""));
}

#[test]
fn checksums_hash_token_address_path_and_form() {
    let c = config();
    assert_eq!(
        checksum(&c, "/user.search", &[("order", "newest")]),
        [102, 196, 108, 9, 141, 224, 198, 135, 212, 137, 166, 100, 111, 35, 49, 191, 202, 158, 206, 223]
    );
    assert_eq!(
        Source::Diffs.checksum(&c),
        [119, 227, 208, 168, 125, 44, 131, 156, 111, 103, 194, 24, 1, 13, 69, 170, 67, 89, 23, 76]
    );
    assert_eq!(
        Source::Repos.checksum(&c),
        [187, 28, 108, 70, 206, 13, 62, 60, 149, 199, 57, 214, 79, 51, 140, 255, 7, 113, 210, 70]
    );
    assert_eq!(Source::Users.checksum(&c), checksum(&c, "/user.search", &[("order", "newest")]));
}

#[test]
fn sources() {
    assert_eq!(Source::Tasks.path(), "/maniphest.search");
    assert_eq!(Source::Pages.cache_key(), "pages");
    assert_eq!(Source::Pages.ttl_secs(), 3600);
    assert_eq!(Source::Users.ttl_secs(), 86400);
    assert_eq!(Source::Pages.form(), vec![("order", "newest"), ("attachments[content]", "true")]);
}

#[test]
fn forms() {
    assert_eq!(update_form(None), vec![("order", "updated".to_string())]);
    assert_eq!(
        update_form(Some(1000)),
        vec![("order", "updated".to_string()), ("constraints[modifiedStart]", "400".to_string())]
    );
    assert_eq!(update_form(Some(100))[1].1, "-500");
    let base = vec![("order", "updated".to_string())];
    assert_eq!(
        page_form(&base, "tok", Some("42".to_string())),
        vec![("order", "updated".to_string()), ("api.token", "tok".to_string()), ("after", "42".to_string())]
    );
    assert_eq!(page_form(&[], "tok", None), vec![("api.token", "tok".to_string())]);
    assert_eq!(request_form("tok", &[("order", "committed")]), vec![("api.token", "tok"), ("order", "committed")]);
}

#[test]
fn diff_and_task_entries() {
    let users = vec![User::new("PHID-USER-1".to_string(), "Alice".to_string())];
    let d = Diff {
        id: 42,
        title: "Fix crash".to_string(),
        author_id: "PHID-USER-1".to_string(),
        status: "needs-review".to_string(),
        repository_id: None,
        updated_at: 0,
    };
    let e = Hit::Diff(d).entry(&users, "2 hours ago", "https://ph.example.com");
    assert_eq!(e.title, "D42: Fix crash");
    assert_eq!(e.subtitle.unwrap(), "2 hours ago by Alice, needs review");
    assert_eq!(e.arg.unwrap(), "https://ph.example.com/D42");
    assert_eq!(e.icon, "./assets/diff.png");
    let stranger = Diff { id: 1, title: "x".to_string(), author_id: "nobody".to_string(), status: "changesPlanned".to_string(), repository_id: None, updated_at: 0 };
    assert_eq!(stranger.entry(&users, "now", "b").subtitle.unwrap(), "now by unknown, changes planned");
    let t = Task {
        id: 7,
        title: "Login".to_string(),
        description: String::new(),
        owner_id: Some("PHID-USER-1".to_string()),
        status: "open".to_string(),
        updated_at: 0,
    };
    let e = t.entry(&users, "1 day ago", "https://ph.example.com");
    assert_eq!(e.title, "T7: Login");
    assert_eq!(e.subtitle.unwrap(), "updated 1 day ago, open, assigned to Alice");
    assert_eq!(e.arg.unwrap(), "https://ph.example.com/T7");
    let unowned = Task { owner_id: None, ..t };
    assert_eq!(unowned.entry(&users, "1 day ago", "b").subtitle.unwrap(), "updated 1 day ago, open");
}

#[test]
fn page_repo_and_command_entries() {
    let p = Page { id: 1, path: "//eng/onboarding/".to_string(), status: "active".to_string(), title: "Onboarding".to_string(), content: String::new() };
    let e = p.entry("https://ph.example.com");
    assert_eq!(e.title, "Onboarding");
    assert_eq!(e.subtitle.unwrap(), "/w/eng/onboarding/");
    assert_eq!(e.arg.unwrap(), "https://ph.example.com/w/eng/onboarding/");
    let e = repo("core", Some("The core")).entry();
    assert_eq!(e.title, "core");
    assert_eq!(e.subtitle.unwrap(), "The core");
    assert_eq!(e.arg.unwrap(), "https://ph.example.com/source/core/");
    assert!(repo("x", None).entry().subtitle.is_none());
    let e = Command::Diffs.entry();
    assert_eq!(e.title, "diffs");
    assert_eq!(e.autocomplete.unwrap(), "diffs ");
    assert_eq!(e.subtitle.unwrap(), "Search differential revisions");
}

#[test]
fn repos_match_every_word_case_insensitively() {
    assert!(repo("Core-API", None).matches("core api"));
    assert!(repo("Core-API", None).matches(""));
    assert!(!repo("Core-API", None).matches("core web"));
    assert!(!repo("Core-API", None).matches("API"));
    let repos = vec![repo("web", None), repo("Core", None), repo("core-api", None), repo("corex", None)];
    let names: Vec<String> = matching_repos(repos, "core", 2).into_iter().map(|r| r.name).collect();
    assert_eq!(names, vec!["Core", "core-api"]);
}

#[test]
fn ago_uses_largest_whole_unit() {
    assert_eq!(format_ago(0), "just now");
    assert_eq!(format_ago(59), "just now");
    assert_eq!(format_ago(60), "1 minute ago");
    assert_eq!(format_ago(7200), "2 hours ago");
    assert_eq!(format_ago(86400 * 8), "1 week ago");
    assert_eq!(format_ago(86400 * 45), "1 month ago");
    assert_eq!(format_ago(86400 * 800), "2 years ago");
}

#[test]
fn entries_with_given_status_text() {
    let d = Diff { id: 5, title: "T".to_string(), author_id: "a".to_string(), status: "accepted".to_string(), repository_id: None, updated_at: 0 };
    let e = d.entry_with(&[], "now", "https://x", "ACCEPTED");
    assert_eq!(e.subtitle.unwrap(), "now by unknown, ACCEPTED");
    assert_eq!(e.arg.unwrap(), "https://x/D5");
    let t = Task { id: 9, title: "T".to_string(), description: String::new(), owner_id: Some("b".to_string()), status: "open".to_string(), updated_at: 0 };
    assert_eq!(t.entry_with(&[], "now", "h", "Open").subtitle.unwrap(), "updated now, Open");
    assert!(words_all_occur(" core  api ", "core-api"));
    assert!(!words_all_occur("Core", "core-api"));
    assert!(words_all_occur("", ""));
}

#[test]
fn pagination_steps() {
    match after_page(vec![1, 2], vec![3], Some("cursor-9".to_string())) {
        PageStep::Next(items, after) => {
            assert_eq!(items, vec![1, 2, 3]);
            assert_eq!(after, "cursor-9");
        }
        s => panic!("{s:?}"),
    }
    match after_page(vec![1], vec![], None) {
        PageStep::Done(items) => assert_eq!(items, vec![1]),
        s => panic!("{s:?}"),
    }
}
