//! The entries the workflow lists: one per command, search hit or
//! repository, with the text, link and icon each shows.

use vstd::prelude::*;
use crate::command::{Command, command_name, command_subtitle, command_icon};
use crate::meili::{Hit, at_most};
use crate::text::{
    decimal, lowercase, to_lowercase, trim_start_char, trim_start_matches_char, u64_to_decimal,
    words, occurs_in, contains_str, split_whitespace, views,
};
use crate::types::{User, Repo, Diff, Task, Page, distinct_ids};

verus! {

/// One listed entry: its title, the line under it, the value it opens, the
/// text it completes the input to, and its icon.
#[derive(Debug)]
pub struct Entry {
    pub title: String,
    pub subtitle: Option<String>,
    pub arg: Option<String>,
    pub autocomplete: Option<String>,
    pub icon: &'static str,
}

/// The view of an optional string.
pub open spec fn opt_view(s: Option<String>) -> Option<Seq<char>> {
    match s {
        Some(v) => Some(v@),
        None => None,
    }
}

/// The words of `s`, lower-cased and separated by single spaces, as
/// `anycase::to_lower` renders it (words split at non-alphanumeric
/// characters and at lower-to-upper case changes).
pub uninterp spec fn lower_words(s: Seq<char>) -> Seq<char>;

/// Calls `anycase::to_lower`; its result depends on the characters of `s` alone.
#[verifier::external_body]
fn to_lower_words(s: &str) -> (r: String)
    ensures
        r@ == lower_words(s@),
{
    anycase::to_lower(s)
}

/// The handle of the first user with id `id`, if any.
pub open spec fn user_handle(users: Seq<User>, id: Seq<char>) -> Option<Seq<char>>
    decreases users.len(),
{
    if users.len() == 0 {
        None
    } else if users[0].id@ == id {
        Some(users[0].handle@)
    } else {
        user_handle(users.drop_first(), id)
    }
}

/// The handle of the first user with id `id`, if any.
pub fn find_handle<'a>(users: &'a [User], id: &str) -> (r: Option<&'a str>)
    requires
        distinct_ids(users@),
    ensures
        match r {
            Some(h) => user_handle(users@, id@) == Some(h@),
            None => user_handle(users@, id@) is None,
        },
{
    let n = users.len();
    let mut i: usize = 0;
    assert(users@.subrange(0, n as int) =~= users@);
    while i < n
        invariant
            n == users@.len(),
            i <= n,
            user_handle(users@, id@) == user_handle(users@.subrange(i as int, n as int), id@),
        decreases n - i,
    {
        assert(users@.subrange(i as int, n as int).drop_first() =~= users@.subrange(
            i + 1,
            n as int,
        ));
        if crate::text::str_eq(users[i].id.as_str(), id) {
            return Some(users[i].handle.as_str());
        }
        i += 1;
    }
    None
}

/// The entry offering a command: its name, completing the input to the
/// name and a space.
pub open spec fn command_entry(e: Entry, c: Command) -> bool {
    &&& e.title@ == command_name(c)
    &&& opt_view(e.subtitle) == Some(command_subtitle(c))
    &&& e.arg is None
    &&& opt_view(e.autocomplete) == Some(command_name(c) + " "@)
    &&& e.icon@ == command_icon(c)
}

impl Command {
    /// The entry offering this command.
    pub fn entry(&self) -> (r: Entry)
        ensures
            command_entry(r, *self),
    {
        let name = self.name();
        let mut autocomplete = String::from_str(name);
        autocomplete.append(" ");
        Entry {
            title: String::from_str(name),
            subtitle: Some(String::from_str(self.subtitle())),
            arg: None,
            autocomplete: Some(autocomplete),
            icon: self.icon(),
        }
    }
}

/// The entry for a diff: `D<id>: <title>`, described by when it changed,
/// who wrote it and its status in words, opening the diff under `base_url`.
pub open spec fn diff_entry_with(
    e: Entry,
    d: Diff,
    users: Seq<User>,
    ago: Seq<char>,
    base_url: Seq<char>,
    status: Seq<char>,
) -> bool {
    let author = match user_handle(users, d.author_id@) {
        Some(h) => h,
        None => "unknown"@,
    };
    &&& e.title@ == "D"@ + decimal(d.id as nat) + ": "@ + d.title@
    &&& opt_view(e.subtitle) == Some(ago + " by "@ + author + ", "@ + status)
    &&& opt_view(e.arg) == Some(base_url + "/D"@ + decimal(d.id as nat))
    &&& e.autocomplete is None
    &&& e.icon@ == "./assets/diff.png"@
}

/// The entry for a diff, its status written as lower-case words.
pub open spec fn diff_entry(e: Entry, d: Diff, users: Seq<User>, ago: Seq<char>, base_url: Seq<char>) -> bool {
    diff_entry_with(e, d, users, ago, base_url, lower_words(d.status@))
}

/// The entry for a task: `T<id>: <title>`, described by when it changed,
/// its status in words and, when its owner is known, who it is assigned to.
pub open spec fn task_entry_with(
    e: Entry,
    t: Task,
    users: Seq<User>,
    ago: Seq<char>,
    base_url: Seq<char>,
    status: Seq<char>,
) -> bool {
    let owner = match t.owner_id {
        Some(o) => match user_handle(users, o@) {
            Some(h) => ", assigned to "@ + h,
            None => Seq::<char>::empty(),
        },
        None => Seq::<char>::empty(),
    };
    &&& e.title@ == "T"@ + decimal(t.id as nat) + ": "@ + t.title@
    &&& opt_view(e.subtitle) == Some("updated "@ + ago + ", "@ + status + owner)
    &&& opt_view(e.arg) == Some(base_url + "/T"@ + decimal(t.id as nat))
    &&& e.autocomplete is None
    &&& e.icon@ == "./assets/task.png"@
}

/// The entry for a task, its status written as lower-case words.
pub open spec fn task_entry(e: Entry, t: Task, users: Seq<User>, ago: Seq<char>, base_url: Seq<char>) -> bool {
    task_entry_with(e, t, users, ago, base_url, lower_words(t.status@))
}

/// The wiki address of a page path: `/w/` and the path without leading slashes.
pub open spec fn wiki_path(path: Seq<char>) -> Seq<char> {
    "/w/"@ + trim_start_char(path, '/')
}

/// The entry for a wiki page: its title, described and opened by its wiki address.
pub open spec fn page_entry(e: Entry, p: Page, base_url: Seq<char>) -> bool {
    &&& e.title@ == p.title@
    &&& opt_view(e.subtitle) == Some(wiki_path(p.path@))
    &&& opt_view(e.arg) == Some(base_url + wiki_path(p.path@))
    &&& e.autocomplete is None
    &&& e.icon@ == "./assets/wiki.png"@
}

/// The entry for a repository: its name, described by its description when
/// it has one, opening its address.
pub open spec fn repo_entry(e: Entry, r: Repo) -> bool {
    &&& e.title@ == r.name@
    &&& opt_view(e.subtitle) == opt_view(r.description)
    &&& opt_view(e.arg) == Some(r.uri@)
    &&& e.autocomplete is None
    &&& e.icon@ == "./assets/repo.png"@
}

impl Diff {
    /// The entry for this diff; `ago` says how long ago it changed and
    /// `base_url` is the Phabricator address.
    pub fn entry(&self, users: &[User], ago: &str, base_url: &str) -> (r: Entry)
        requires
            distinct_ids(users@),
        ensures
            diff_entry(r, *self, users@, ago@, base_url@),
    {
        let status = to_lower_words(self.status.as_str());
        self.entry_with(users, ago, base_url, status.as_str())
    }

    /// The entry for this diff with its status already written as `status`.
    pub fn entry_with(&self, users: &[User], ago: &str, base_url: &str, status: &str) -> (r: Entry)
        requires
            distinct_ids(users@),
        ensures
            diff_entry_with(r, *self, users@, ago@, base_url@, status@),
    {
        let id = u64_to_decimal(self.id as u64);
        let mut title = String::from_str("D");
        title.append(id.as_str());
        title.append(": ");
        title.append(self.title.as_str());
        let mut subtitle = String::from_str(ago);
        subtitle.append(" by ");
        match find_handle(users, self.author_id.as_str()) {
            Some(h) => subtitle.append(h),
            None => subtitle.append("unknown"),
        }
        subtitle.append(", ");
        subtitle.append(status);
        let mut arg = String::from_str(base_url);
        arg.append("/D");
        arg.append(id.as_str());
        Entry {
            title,
            subtitle: Some(subtitle),
            arg: Some(arg),
            autocomplete: None,
            icon: "./assets/diff.png",
        }
    }
}

impl Task {
    /// The entry for the task; `ago` says how long ago it changed and
    /// `base_url` is the Phabricator address.
    pub fn entry(&self, users: &[User], ago: &str, base_url: &str) -> (r: Entry)
        requires
            distinct_ids(users@),
        ensures
            task_entry(r, *self, users@, ago@, base_url@),
    {
        let status = to_lower_words(self.status.as_str());
        self.entry_with(users, ago, base_url, status.as_str())
    }

    /// The entry for the task with its status already written as `status`.
    pub fn entry_with(&self, users: &[User], ago: &str, base_url: &str, status: &str) -> (r: Entry)
        requires
            distinct_ids(users@),
        ensures
            task_entry_with(r, *self, users@, ago@, base_url@, status@),
    {
        let id = u64_to_decimal(self.id as u64);
        let mut title = String::from_str("T");
        title.append(id.as_str());
        title.append(": ");
        title.append(self.title.as_str());
        let mut subtitle = String::from_str("updated ");
        subtitle.append(ago);
        subtitle.append(", ");
        subtitle.append(status);
        let ghost base = subtitle@;
        match &self.owner_id {
            Some(owner) => match find_handle(users, owner.as_str()) {
                Some(h) => {
                    subtitle.append(", assigned to ");
                    subtitle.append(h);
                    assert(subtitle@ =~= base + (", assigned to "@ + h@));
                },
                None => {
                    assert(subtitle@ =~= base + Seq::<char>::empty());
                },
            },
            None => {
                assert(subtitle@ =~= base + Seq::<char>::empty());
            },
        }
        let mut arg = String::from_str(base_url);
        arg.append("/T");
        arg.append(id.as_str());
        Entry {
            title,
            subtitle: Some(subtitle),
            arg: Some(arg),
            autocomplete: None,
            icon: "./assets/task.png",
        }
    }
}

impl Page {
    /// The entry for this wiki page; `base_url` is the Phabricator address.
    pub fn entry(&self, base_url: &str) -> (r: Entry)
        ensures
            page_entry(r, *self, base_url@),
    {
        let mut path = String::from_str("/w/");
        path.append(trim_start_matches_char(self.path.as_str(), '/'));
        let mut arg = String::from_str(base_url);
        arg.append(path.as_str());
        Entry {
            title: self.title.clone(),
            subtitle: Some(path),
            arg: Some(arg),
            autocomplete: None,
            icon: "./assets/wiki.png",
        }
    }
}

impl Repo {
    /// The entry for this repository.
    pub fn entry(&self) -> (r: Entry)
        ensures
            repo_entry(r, *self),
    {
        let subtitle = match &self.description {
            Some(d) => Some(d.clone()),
            None => None,
        };
        Entry {
            title: self.name.clone(),
            subtitle,
            arg: Some(self.uri.clone()),
            autocomplete: None,
            icon: "./assets/repo.png",
        }
    }
}

impl Hit {
    /// The entry for this search hit.
    pub fn entry(&self, users: &[User], ago: &str, base_url: &str) -> (r: Entry)
        requires
            distinct_ids(users@),
        ensures
            match *self {
                Hit::Diff(d) => diff_entry(r, d, users@, ago@, base_url@),
                Hit::Task(t) => task_entry(r, t, users@, ago@, base_url@),
                Hit::Page(p) => page_entry(r, p, base_url@),
            },
    {
        match self {
            Hit::Diff(d) => d.entry(users, ago, base_url),
            Hit::Task(t) => t.entry(users, ago, base_url),
            Hit::Page(p) => p.entry(base_url),
        }
    }
}

/// How long ago something happened, `secs` seconds back, in the largest
/// whole unit among years (365 days), months (30 days), weeks, days, hours
/// and minutes: `<n> <unit> ago`, with an `s` after the unit when `n` is
/// not one; under a minute it is `just now`.
pub open spec fn ago_text(secs: nat) -> Seq<char> {
    if secs >= 31536000 {
        unit_ago(secs / 31536000, "year"@)
    } else if secs >= 2592000 {
        unit_ago(secs / 2592000, "month"@)
    } else if secs >= 604800 {
        unit_ago(secs / 604800, "week"@)
    } else if secs >= 86400 {
        unit_ago(secs / 86400, "day"@)
    } else if secs >= 3600 {
        unit_ago(secs / 3600, "hour"@)
    } else if secs >= 60 {
        unit_ago(secs / 60, "minute"@)
    } else {
        "just now"@
    }
}

/// `<n> <unit> ago`, with the unit in the plural when `n` is not one.
pub open spec fn unit_ago(n: nat, unit: Seq<char>) -> Seq<char> {
    decimal(n) + " "@ + unit + (if n == 1 {
        Seq::<char>::empty()
    } else {
        "s"@
    }) + " ago"@
}

fn render_unit_ago(n: u64, unit: &str) -> (r: String)
    ensures
        r@ == unit_ago(n as nat, unit@),
{
    let mut r = u64_to_decimal(n);
    r.append(" ");
    r.append(unit);
    let ghost base = r@;
    if n != 1 {
        r.append("s");
    } else {
        assert(r@ =~= base + Seq::<char>::empty());
    }
    r.append(" ago");
    r
}

/// Says how long ago something happened, `secs` seconds back.
pub fn format_ago(secs: u64) -> (r: String)
    ensures
        r@ == ago_text(secs as nat),
{
    if secs >= 31536000 {
        render_unit_ago(secs / 31536000, "year")
    } else if secs >= 2592000 {
        render_unit_ago(secs / 2592000, "month")
    } else if secs >= 604800 {
        render_unit_ago(secs / 604800, "week")
    } else if secs >= 86400 {
        render_unit_ago(secs / 86400, "day")
    } else if secs >= 3600 {
        render_unit_ago(secs / 3600, "hour")
    } else if secs >= 60 {
        render_unit_ago(secs / 60, "minute")
    } else {
        String::from_str("just now")
    }
}

/// Every word of `ws` occurs in `hay`.
pub open spec fn all_occur(ws: Seq<Seq<char>>, hay: Seq<char>) -> bool {
    forall|i: int| 0 <= i < ws.len() ==> occurs_in(#[trigger] ws[i], hay)
}

/// Every word of `query` occurs in the lower-cased repository name.
pub open spec fn repo_matches(r: Repo, query: Seq<char>) -> bool {
    all_occur(words(query), lowercase(r.name@))
}

impl Repo {
    /// Whether every word of `query` occurs in this repository's lower-cased name.
    pub fn matches(&self, query: &str) -> (r: bool)
        ensures
            r == repo_matches(*self, query@),
    {
        let lower = to_lowercase(self.name.as_str());
        words_all_occur(query, lower.as_str())
    }
}

/// Whether every word of `query` occurs in `hay`.
pub fn words_all_occur(query: &str, hay: &str) -> (r: bool)
    ensures
        r == all_occur(words(query@), hay@),
{
    let ws = split_whitespace(query);
    let n = ws.len();
    let mut i: usize = 0;
    while i < n
        invariant
            n == ws@.len(),
            views(ws@) == words(query@),
            i <= n,
            forall|j: int| 0 <= j < i ==> occurs_in(#[trigger] words(query@)[j], hay@),
        decreases n - i,
    {
        assert(views(ws@)[i as int] == ws@[i as int]@);
        if !contains_str(hay, ws[i]) {
            return false;
        }
        i += 1;
    }
    true
}

/// The repositories of `repos` that match `query`, in order.
pub open spec fn repos_matching(repos: Seq<Repo>, query: Seq<char>) -> Seq<Repo>
    decreases repos.len(),
{
    if repos.len() == 0 {
        seq![]
    } else if repo_matches(repos[0], query) {
        seq![repos[0]] + repos_matching(repos.drop_first(), query)
    } else {
        repos_matching(repos.drop_first(), query)
    }
}

/// The first `limit` repositories that match `query`, in order.
pub fn matching_repos(repos: Vec<Repo>, query: &str, limit: usize) -> (r: Vec<Repo>)
    ensures
        r@ == at_most(repos_matching(repos@, query@), limit as nat),
{
    let ghost whole = repos@;
    let mut rest = repos;
    let mut out: Vec<Repo> = Vec::new();
    while rest.len() > 0
        invariant
            out@ + repos_matching(rest@, query@) == repos_matching(whole, query@),
        decreases rest.len(),
    {
        let ghost before = rest@;
        let repo = rest.remove(0);
        assert(rest@ =~= before.drop_first());
        let ghost prev = out@;
        if repo.matches(query) {
            out.push(repo);
            assert(prev + (seq![before[0]] + repos_matching(rest@, query@)) =~= out@
                + repos_matching(rest@, query@));
        }
    }
    assert(out@ =~= repos_matching(whole, query@));
    out.truncate(limit);
    out
}

/// Looking up a user's handle finds the handle of a user with that id,
/// wherever that user stands, and finds nothing exactly when no user has
/// the id; with distinct ids the handle found is that of the one user with it.
pub proof fn handle_lookup_finds_the_user_with_the_id(users: Seq<User>, id: Seq<char>)
    ensures
        user_handle(users, id) is None <==> forall|i: int|
            0 <= i < users.len() ==> (#[trigger] users[i]).id@ != id,
        user_handle(users, id) matches Some(h) ==> exists|i: int|
            0 <= i < users.len() && (#[trigger] users[i]).id@ == id && users[i].handle@ == h,
        forall|i: int|
            0 <= i < users.len() && distinct_ids(users) && (#[trigger] users[i]).id@ == id
                ==> user_handle(users, id) == Some(users[i].handle@),
    decreases users.len(),
{
    if users.len() > 0 {
        let rest = users.drop_first();
        handle_lookup_finds_the_user_with_the_id(rest, id);
        assert forall|i: int| 0 < i < users.len() implies #[trigger] users[i] == rest[i - 1] by {}
        if users[0].id@ != id {
            if user_handle(users, id) is Some {
                let h = user_handle(users, id)->0;
                let j = choose|j: int|
                    0 <= j < rest.len() && (#[trigger] rest[j]).id@ == id && rest[j].handle@ == h;
                assert(users[j + 1] == rest[j]);
            }
            if forall|i: int| 0 <= i < rest.len() ==> (#[trigger] rest[i]).id@ != id {
                assert forall|i: int| 0 <= i < users.len() implies (#[trigger] users[i]).id@ != id by {
                    if i > 0 {
                        assert(rest[i - 1] == users[i]);
                    }
                }
            }
            assert forall|i: int|
                0 <= i < users.len() && distinct_ids(users) && (#[trigger] users[i]).id@ == id
                    implies user_handle(users, id) == Some(users[i].handle@) by {
                assert(i > 0);
                assert(rest[i - 1] == users[i]);
                assert forall|a: int, b: int| 0 <= a < b < rest.len() implies (#[trigger] rest[a]).id@
                    != (#[trigger] rest[b]).id@ by {
                    assert(rest[a] == users[a + 1]);
                    assert(rest[b] == users[b + 1]);
                }
            }
        } else {
            assert(users[0].id@ == id);
            assert forall|i: int|
                0 <= i < users.len() && distinct_ids(users) && (#[trigger] users[i]).id@ == id
                    implies user_handle(users, id) == Some(users[i].handle@) by {
                if i > 0 {
                    assert(users[0].id@ != users[i].id@);
                }
            }
        }
    }
}

/// Searching repositories filters each one on its own: the matches among
/// two runs of repositories are the matches of the first followed by those
/// of the second, and a single repository is kept exactly when it matches.
pub proof fn repository_search_filters_each_repository(
    first: Seq<Repo>,
    second: Seq<Repo>,
    repo: Repo,
    query: Seq<char>,
)
    ensures
        repos_matching(first + second, query) == repos_matching(first, query) + repos_matching(
            second,
            query,
        ),
        repos_matching(seq![repo], query) == (if repo_matches(repo, query) {
            seq![repo]
        } else {
            Seq::<Repo>::empty()
        }),
    decreases first.len(),
{
    let one: Seq<Repo> = seq![repo];
    assert(repos_matching(Seq::<Repo>::empty(), query) == Seq::<Repo>::empty());
    assert(one.drop_first() =~= Seq::<Repo>::empty());
    assert(one[0] == repo);
    assert(seq![repo] + Seq::<Repo>::empty() =~= seq![repo]);
    if first.len() == 0 {
        assert(first + second =~= second);
        assert(Seq::<Repo>::empty() + repos_matching(second, query) =~= repos_matching(
            second,
            query,
        ));
    } else {
        assert((first + second).drop_first() =~= first.drop_first() + second);
        assert((first + second)[0] == first[0]);
        repository_search_filters_each_repository(first.drop_first(), second, repo, query);
        assert(seq![first[0]] + (repos_matching(first.drop_first(), query) + repos_matching(
            second,
            query,
        )) =~= (seq![first[0]] + repos_matching(first.drop_first(), query)) + repos_matching(
            second,
            query,
        ));
    }
}

} // verus!
