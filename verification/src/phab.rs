//! The Phabricator side: which API method each collection comes from, how
//! long a fetched collection stays fresh, the form each request sends, and
//! the checksum that identifies a cached collection.

use vstd::prelude::*;
use crate::config::Config;
use crate::text::{i64_to_decimal, signed_decimal};
use vstd::utf8::encode_utf8;

verus! {

/// A collection fetched from Phabricator.
#[derive(Debug, Clone, Copy, PartialEq, Eq, Structural)]
pub enum Source {
    Diffs,
    Tasks,
    Pages,
    Repos,
    Users,
}

/// The API method a collection is fetched from.
pub open spec fn source_path(s: Source) -> Seq<char> {
    match s {
        Source::Diffs => "/differential.revision.search"@,
        Source::Tasks => "/maniphest.search"@,
        Source::Pages => "/phriction.document.search"@,
        Source::Repos => "/repository.query"@,
        Source::Users => "/user.search"@,
    }
}

/// The key a collection is cached under.
pub open spec fn source_cache_key(s: Source) -> Seq<char> {
    match s {
        Source::Diffs => "diffs"@,
        Source::Tasks => "tasks"@,
        Source::Pages => "pages"@,
        Source::Repos => "repos"@,
        Source::Users => "users"@,
    }
}

/// How many seconds a fetched collection stays fresh: diffs and tasks a
/// minute, pages an hour, repositories and users a day.
pub open spec fn source_ttl_secs(s: Source) -> u64 {
    match s {
        Source::Diffs => 60,
        Source::Tasks => 60,
        Source::Pages => 3600,
        Source::Repos => 86400,
        Source::Users => 86400,
    }
}

/// The fixed form fields of a collection's request (diffs and tasks get
/// theirs from `update_form`).
pub open spec fn source_form(s: Source) -> Seq<(Seq<char>, Seq<char>)> {
    match s {
        Source::Diffs => seq![],
        Source::Tasks => seq![],
        Source::Pages => seq![("order"@, "newest"@), ("attachments[content]"@, "true"@)],
        Source::Repos => seq![("order"@, "committed"@)],
        Source::Users => seq![("order"@, "newest"@)],
    }
}

/// The form fields that identify a cached collection: those of repositories
/// and users; none for the others.
pub open spec fn source_checksum_form(s: Source) -> Seq<(Seq<char>, Seq<char>)> {
    match s {
        Source::Repos => source_form(s),
        Source::Users => source_form(s),
        _ => seq![],
    }
}

/// The views of form fields.
pub open spec fn form_views(f: Seq<(&str, &str)>) -> Seq<(Seq<char>, Seq<char>)> {
    f.map_values(|p: (&str, &str)| (p.0@, p.1@))
}

/// The views of form fields with owned values.
pub open spec fn owned_form_views(f: Seq<(&str, String)>) -> Seq<(Seq<char>, Seq<char>)> {
    f.map_values(|p: (&str, String)| (p.0@, p.1@))
}

impl Source {
    /// The API method this collection is fetched from.
    pub fn path(&self) -> (r: &'static str)
        ensures
            r@ == source_path(*self),
    {
        match self {
            Source::Diffs => "/differential.revision.search",
            Source::Tasks => "/maniphest.search",
            Source::Pages => "/phriction.document.search",
            Source::Repos => "/repository.query",
            Source::Users => "/user.search",
        }
    }

    /// The key this collection is cached under.
    pub fn cache_key(&self) -> (r: &'static str)
        ensures
            r@ == source_cache_key(*self),
    {
        match self {
            Source::Diffs => "diffs",
            Source::Tasks => "tasks",
            Source::Pages => "pages",
            Source::Repos => "repos",
            Source::Users => "users",
        }
    }

    /// How many seconds this collection stays fresh once fetched.
    pub fn ttl_secs(&self) -> (r: u64)
        ensures
            r == source_ttl_secs(*self),
    {
        match self {
            Source::Diffs => 60,
            Source::Tasks => 60,
            Source::Pages => 3600,
            Source::Repos => 86400,
            Source::Users => 86400,
        }
    }

    /// The fixed form fields of this collection's request.
    pub fn form(&self) -> (r: Vec<(&'static str, &'static str)>)
        ensures
            form_views(r@) == source_form(*self),
    {
        let r = match self {
            Source::Diffs => Vec::new(),
            Source::Tasks => Vec::new(),
            Source::Pages => vec![("order", "newest"), ("attachments[content]", "true")],
            Source::Repos => vec![("order", "committed")],
            Source::Users => vec![("order", "newest")],
        };
        assert(form_views(r@) =~= source_form(*self));
        r
    }

    /// The checksum that identifies this collection as cached for `config`.
    pub fn checksum(&self, config: &Config) -> (r: [u8; 20])
        ensures
            r@ == sha1(checksum_input(*config, source_path(*self), source_checksum_form(*self))),
    {
        let form: Vec<(&'static str, &'static str)> = match self {
            Source::Repos => self.form(),
            Source::Users => self.form(),
            _ => Vec::new(),
        };
        assert(form_views(form@) =~= source_checksum_form(*self));
        checksum(config, self.path(), form.as_slice())
    }
}

/// The SHA-1 digest of `data`, as the `sha1` crate computes it.
pub uninterp spec fn sha1(data: Seq<u8>) -> Seq<u8>;

/// Calls `<sha1::Sha1 as Digest>::digest`; the digest depends on `data` alone.
#[verifier::external_body]
fn sha1_digest(data: &[u8]) -> (r: [u8; 20])
    ensures
        r@ == sha1(data@),
{
    <sha1::Sha1 as sha1::Digest>::digest(data).into()
}

/// The keys and values of `form`, in order, run together.
pub open spec fn form_text(form: Seq<(Seq<char>, Seq<char>)>) -> Seq<char>
    decreases form.len(),
{
    if form.len() == 0 {
        seq![]
    } else {
        form_text(form.drop_last()) + form.last().0 + form.last().1
    }
}

/// The bytes a checksum is taken over: the API token, the API address, the
/// method path and the form's keys and values, run together, in UTF-8.
pub open spec fn checksum_input(
    config: Config,
    path: Seq<char>,
    form: Seq<(Seq<char>, Seq<char>)>,
) -> Seq<u8> {
    encode_utf8(config.ph_api_token@ + config.ph_api_url@ + path + form_text(form))
}

/// The checksum identifying a request of `path` with `form` for `config`.
pub fn checksum(config: &Config, path: &str, form: &[(&str, &str)]) -> (r: [u8; 20])
    ensures
        r@ == sha1(checksum_input(*config, path@, form_views(form@))),
{
    let mut text = config.ph_api_token.clone();
    text.append(config.ph_api_url.as_str());
    text.append(path);
    let ghost head = text@;
    let n = form.len();
    let mut i: usize = 0;
    while i < n
        invariant
            n == form@.len(),
            i <= n,
            text@ == head + form_text(form_views(form@).subrange(0, i as int)),
        decreases n - i,
    {
        assert(form_views(form@).subrange(0, i + 1).drop_last() =~= form_views(form@).subrange(
            0,
            i as int,
        ));
        let (k, v) = form[i];
        text.append(k);
        text.append(v);
        i += 1;
    }
    assert(form_views(form@).subrange(0, n as int) =~= form_views(form@));
    sha1_digest(text.as_str().as_bytes())
}

/// The form of a request for diffs or tasks: ordered by update, and, when
/// the collection was last updated at `prev_update_secs` (seconds since the
/// epoch), only what changed from ten minutes before that on.
pub fn update_form(prev_update_secs: Option<u64>) -> (r: Vec<(&'static str, String)>)
    requires
        prev_update_secs matches Some(s) ==> s <= i64::MAX,
    ensures
        owned_form_views(r@) == seq![("order"@, "updated"@)] + match prev_update_secs {
            Some(s) => seq![("constraints[modifiedStart]"@, signed_decimal(s - 600))],
            None => seq![],
        },
{
    let mut form: Vec<(&'static str, String)> = Vec::new();
    form.push(("order", String::from_str("updated")));
    match prev_update_secs {
        Some(secs) => {
            let start: i64 = secs as i64 - 600;
            form.push(("constraints[modifiedStart]", i64_to_decimal(start)));
        },
        None => {},
    }
    assert(owned_form_views(form@) =~= seq![("order"@, "updated"@)] + match prev_update_secs {
        Some(s) => seq![("constraints[modifiedStart]"@, signed_decimal(s - 600))],
        None => seq![],
    });
    form
}

/// The form of one page of a paginated request: the collection's fields,
/// the API token, and the cursor of the page to continue after, if any.
pub fn page_form(
    base: &[(&'static str, String)],
    token: &str,
    after: Option<String>,
) -> (r: Vec<(&'static str, String)>)
    ensures
        owned_form_views(r@) == owned_form_views(base@) + seq![("api.token"@, token@)]
            + match after {
            Some(a) => seq![("after"@, a@)],
            None => seq![],
        },
{
    let mut form: Vec<(&'static str, String)> = Vec::new();
    let n = base.len();
    let mut i: usize = 0;
    while i < n
        invariant
            n == base@.len(),
            i <= n,
            owned_form_views(form@) =~= owned_form_views(base@).subrange(0, i as int),
        decreases n - i,
    {
        let (k, v) = &base[i];
        let ghost before = form@;
        form.push((*k, v.clone()));
        assert(owned_form_views(form@) =~= owned_form_views(before).push((base@[i as int].0@, base@[i as int].1@)));
        assert(owned_form_views(base@).subrange(0, i + 1) =~= owned_form_views(base@).subrange(0, i as int).push((base@[i as int].0@, base@[i as int].1@)));
        i += 1;
    }
    assert(owned_form_views(base@).subrange(0, n as int) =~= owned_form_views(base@));
    let ghost before = form@;
    form.push(("api.token", String::from_str(token)));
    assert(owned_form_views(form@) =~= owned_form_views(before).push(("api.token"@, token@)));
    let ghost mid = form@;
    match after {
        Some(a) => {
            form.push(("after", a));
            assert(owned_form_views(form@) =~= owned_form_views(mid).push(("after"@, a@)));
        },
        None => {},
    }
    assert(owned_form_views(form@) =~= owned_form_views(base@) + seq![("api.token"@, token@)]
        + match after {
        Some(a) => seq![("after"@, a@)],
        None => seq![],
    });
    form
}

/// The form of a single (unpaginated) request: the API token, then the
/// collection's fields.
pub fn request_form<'a>(token: &'a str, base: &[(&'a str, &'a str)]) -> (r: Vec<(&'a str, &'a str)>)
    ensures
        form_views(r@) == seq![("api.token"@, token@)] + form_views(base@),
{
    let mut form: Vec<(&'a str, &'a str)> = Vec::new();
    form.push(("api.token", token));
    let n = base.len();
    let mut i: usize = 0;
    while i < n
        invariant
            n == base@.len(),
            i <= n,
            form_views(form@) =~= seq![("api.token"@, token@)] + form_views(base@).subrange(
                0,
                i as int,
            ),
        decreases n - i,
    {
        let ghost before = form@;
        form.push(base[i]);
        assert(form_views(form@) =~= form_views(before).push((base@[i as int].0@, base@[i as int].1@)));
        assert(form_views(base@).subrange(0, i + 1) =~= form_views(base@).subrange(0, i as int).push((base@[i as int].0@, base@[i as int].1@)));
        i += 1;
    }
    assert(form_views(base@).subrange(0, n as int) =~= form_views(base@));
    form
}

/// What follows a fetched page of a paginated request.
#[derive(Debug)]
pub enum PageStep<T> {
    /// Fetch the page after the cursor, having collected these items.
    Next(Vec<T>, String),
    /// The last page was fetched: these are all the items.
    Done(Vec<T>),
}

/// After a page: the items collected so far followed by the page's items,
/// and, when the response names a cursor to continue `after`, the next
/// page to fetch; otherwise the request is complete.
pub fn after_page<T>(items: Vec<T>, page: Vec<T>, after: Option<String>) -> (r: PageStep<T>)
    ensures
        match after {
            Some(a) => r matches PageStep::Next(v, c) && v@ == items@ + page@ && c@ == a@,
            None => r matches PageStep::Done(v) && v@ == items@ + page@,
        },
{
    let mut items = items;
    let mut page = page;
    items.append(&mut page);
    match after {
        Some(a) => PageStep::Next(items, a),
        None => PageStep::Done(items),
    }
}

/// The text of two runs of form fields is that of the first followed by
/// that of the second, and a single field contributes its key then its value.
pub proof fn form_text_runs_fields_together(
    first: Seq<(Seq<char>, Seq<char>)>,
    second: Seq<(Seq<char>, Seq<char>)>,
    key: Seq<char>,
    value: Seq<char>,
)
    ensures
        form_text(first + second) == form_text(first) + form_text(second),
        form_text(seq![(key, value)]) == key + value,
    decreases second.len(),
{
    let one: Seq<(Seq<char>, Seq<char>)> = seq![(key, value)];
    assert(one.drop_last() =~= Seq::<(Seq<char>, Seq<char>)>::empty());
    assert(one.last() == (key, value));
    assert(form_text(Seq::<(Seq<char>, Seq<char>)>::empty()) == Seq::<char>::empty());
    assert(form_text(one) == form_text(one.drop_last()) + key + value);
    assert(Seq::<char>::empty() + key + value =~= key + value);
    if second.len() == 0 {
        assert(first + second =~= first);
        assert(form_text(first) + Seq::<char>::empty() =~= form_text(first));
    } else {
        form_text_runs_fields_together(first, second.drop_last(), key, value);
        assert((first + second).drop_last() =~= first + second.drop_last());
        assert((first + second).last() == second.last());
        let f = second.last();
        assert(form_text(first) + form_text(second.drop_last()) + f.0 + f.1 =~= form_text(first)
            + (form_text(second.drop_last()) + f.0 + f.1));
    }
}

} // verus!
