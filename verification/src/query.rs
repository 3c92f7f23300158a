//! Search queries: the filters a query carries (`@user`, `+status`,
//! `-status`) and the Meilisearch filter expression they become.

use vstd::prelude::*;
use crate::meili::{
    Index, index_user_field, index_status_field, index_statuses, keep_prefixed, has_some_prefix,
    prefix_selection_keeps_exactly_the_prefixed,
};
use crate::text::{
    words, views, join, string_views, split_whitespace, strip_prefix_char, join_strs, join_strings,
    is_prefix, starts_with,
};
use crate::types::{User, distinct_ids};

verus! {

/// What a word of a query asks for.
pub enum WordKind {
    /// `@name`: documents of users whose handle begins with `name`.
    Handle,
    /// `+status`: documents whose status begins with `status`.
    Status,
    /// `-status`: documents whose status does not begin with `status`.
    NotStatus,
    /// Anything else: text to search for.
    Text,
}

/// `w` is `c` followed by at least one character.
pub open spec fn tagged(w: Seq<char>, c: char) -> bool {
    w.len() > 1 && w[0] == c
}

/// What the word `w` asks for; a marker alone is plain text.
pub open spec fn word_kind(w: Seq<char>) -> WordKind {
    if tagged(w, '@') {
        WordKind::Handle
    } else if tagged(w, '+') {
        WordKind::Status
    } else if tagged(w, '-') {
        WordKind::NotStatus
    } else {
        WordKind::Text
    }
}

/// The words of kind `k`, in order, without their marker (text words whole).
pub open spec fn words_of_kind(ws: Seq<Seq<char>>, k: WordKind) -> Seq<Seq<char>>
    decreases ws.len(),
{
    if ws.len() == 0 {
        seq![]
    } else {
        let rest = words_of_kind(ws.drop_last(), k);
        let w = ws.last();
        if word_kind(w) == k {
            rest.push(
                if k is Text {
                    w
                } else {
                    w.drop_first()
                },
            )
        } else {
            rest
        }
    }
}

/// Splits a query into its handle prefixes, status prefixes, excluded status
/// prefixes, and the remaining words joined by single spaces.
pub fn parse_query(query: &str) -> (r: (Vec<&str>, Vec<&str>, Vec<&str>, String))
    ensures
        views(r.0@) == words_of_kind(words(query@), WordKind::Handle),
        views(r.1@) == words_of_kind(words(query@), WordKind::Status),
        views(r.2@) == words_of_kind(words(query@), WordKind::NotStatus),
        r.3@ == join(words_of_kind(words(query@), WordKind::Text), " "@),
{
    let all = split_whitespace(query);
    let ghost ws = words(query@);
    let mut handles: Vec<&str> = Vec::new();
    let mut statuses: Vec<&str> = Vec::new();
    let mut not_statuses: Vec<&str> = Vec::new();
    let mut parts: Vec<&str> = Vec::new();
    let n = all.len();
    let mut i: usize = 0;
    while i < n
        invariant
            n == all@.len(),
            views(all@) == ws,
            i <= n,
            views(handles@) == words_of_kind(ws.subrange(0, i as int), WordKind::Handle),
            views(statuses@) == words_of_kind(ws.subrange(0, i as int), WordKind::Status),
            views(not_statuses@) == words_of_kind(ws.subrange(0, i as int), WordKind::NotStatus),
            views(parts@) == words_of_kind(ws.subrange(0, i as int), WordKind::Text),
        decreases n - i,
    {
        let part = all[i];
        let ghost sub = ws.subrange(0, i + 1);
        assert(sub.drop_last() =~= ws.subrange(0, i as int));
        assert(sub.last() == part@);
        let ghost h0 = handles@;
        let ghost s0 = statuses@;
        let ghost n0 = not_statuses@;
        let ghost p0 = parts@;
        let mut placed = false;
        if let Some(handle) = strip_prefix_char(part, '@') {
            if !handle.is_empty() {
                handles.push(handle);
                assert(views(handles@) =~= views(h0).push(handle@));
                placed = true;
            }
        }
        if !placed {
            if let Some(status) = strip_prefix_char(part, '+') {
                if !status.is_empty() {
                    statuses.push(status);
                    assert(views(statuses@) =~= views(s0).push(status@));
                    placed = true;
                }
            }
        }
        if !placed {
            if let Some(status) = strip_prefix_char(part, '-') {
                if !status.is_empty() {
                    not_statuses.push(status);
                    assert(views(not_statuses@) =~= views(n0).push(status@));
                    placed = true;
                }
            }
        }
        if !placed {
            parts.push(part);
            assert(views(parts@) =~= views(p0).push(part@));
        }
        i += 1;
    }
    assert(ws.subrange(0, n as int) =~= ws);
    let text = join_strs(&parts, " ");
    (handles, statuses, not_statuses, text)
}

/// `"v1","v2",...,` for the values in order, each quoted and followed by a comma.
pub open spec fn quoted_list(values: Seq<Seq<char>>) -> Seq<char>
    decreases values.len(),
{
    if values.len() == 0 {
        seq![]
    } else {
        quoted_list(values.drop_last()) + "\""@ + values.last() + "\","@
    }
}

/// The filter condition that `field` is (or, with `not`, is not) one of `values`.
pub open spec fn condition(field: Seq<char>, values: Seq<Seq<char>>, not: bool) -> Seq<char> {
    field + (if not {
        " NOT IN ["@
    } else {
        " IN ["@
    }) + quoted_list(values) + "]"@
}

/// The filter condition that `field` is (or, with `not`, is not) one of
/// `values`; no condition when there are no values.
pub fn filter_contains(field: &str, values: &[&str], not: bool) -> (r: Option<String>)
    ensures
        values@.len() == 0 <==> r is None,
        r matches Some(f) ==> f@ == condition(field@, views(values@), not),
{
    if values.len() == 0 {
        return None;
    }
    let mut f = String::from_str(field);
    if not {
        f.append(" NOT IN [");
    } else {
        f.append(" IN [");
    }
    let ghost head = f@;
    let n = values.len();
    let mut i: usize = 0;
    while i < n
        invariant
            n == values@.len(),
            i <= n,
            f@ == head + quoted_list(views(values@).subrange(0, i as int)),
        decreases n - i,
    {
        assert(views(values@).subrange(0, i + 1).drop_last() =~= views(values@).subrange(
            0,
            i as int,
        ));
        f.append("\"");
        f.append(values[i]);
        f.append("\",");
        i += 1;
    }
    assert(views(values@).subrange(0, n as int) =~= views(values@));
    f.append("]");
    Some(f)
}

/// The ids of the users whose lower-cased handle begins with one of
/// `prefixes`, in the users' order.
pub open spec fn matching_ids(users: Seq<User>, prefixes: Seq<Seq<char>>) -> Seq<Seq<char>>
    decreases users.len(),
{
    if users.len() == 0 {
        seq![]
    } else {
        let rest = matching_ids(users.drop_last(), prefixes);
        if has_some_prefix(prefixes, users.last().handle_lower@) {
            rest.push(users.last().id@)
        } else {
            rest
        }
    }
}

/// The ids of the users whose lower-cased handle begins with one of `prefixes`.
pub fn handles_matching<'a>(users: &'a [User], prefixes: &[&str]) -> (r: Vec<&'a str>)
    requires
        distinct_ids(users@),
    ensures
        views(r@) == matching_ids(users@, views(prefixes@)),
{
    let n = users.len();
    let mut out: Vec<&'a str> = Vec::new();
    let mut i: usize = 0;
    while i < n
        invariant
            n == users@.len(),
            i <= n,
            views(out@) == matching_ids(users@.subrange(0, i as int), views(prefixes@)),
        decreases n - i,
    {
        let user = &users[i];
        assert(users@.subrange(0, i + 1).drop_last() =~= users@.subrange(0, i as int));
        let m = prefixes.len();
        let mut j: usize = 0;
        let mut found = false;
        while j < m && !found
            invariant
                m == prefixes@.len(),
                j <= m,
                found ==> has_some_prefix(views(prefixes@), user.handle_lower@),
                !found ==> forall|t: int|
                    0 <= t < j ==> !is_prefix(#[trigger] views(prefixes@)[t], user.handle_lower@),
            decreases m - j,
        {
            if starts_with(user.handle_lower.as_str(), prefixes[j]) {
                assert(is_prefix(views(prefixes@)[j as int], user.handle_lower@));
                found = true;
            }
            j += 1;
        }
        if found {
            let ghost before = out@;
            out.push(user.id.as_str());
            assert(views(out@) =~= views(before).push(user.id@));
        }
        i += 1;
    }
    assert(users@.subrange(0, n as int) =~= users@);
    out
}

/// The condition on an index's user field for the handle prefixes `hs`:
/// none when the index has no user field or `hs` is empty, and `None`
/// when no user matches.
pub open spec fn user_conditions(users: Seq<User>, index: Index, hs: Seq<Seq<char>>) -> Option<
    Seq<Seq<char>>,
> {
    match index_user_field(index) {
        Some(f) => if hs.len() > 0 {
            let m = matching_ids(users, hs);
            if m.len() == 0 {
                None
            } else {
                Some(seq![condition(f, m, false)])
            }
        } else {
            Some(seq![])
        },
        None => Some(seq![]),
    }
}

/// The condition on an index's status field for the status prefixes `st`
/// to keep: none when the index has no status field or `st` is empty, and
/// `None` when no known status matches.
pub open spec fn status_conditions(index: Index, st: Seq<Seq<char>>) -> Option<Seq<Seq<char>>> {
    match index_status_field(index) {
        Some(f) => if st.len() > 0 {
            let m = keep_prefixed(index_statuses(index), st);
            if m.len() == 0 {
                None
            } else {
                Some(seq![condition(f, m, false)])
            }
        } else {
            Some(seq![])
        },
        None => Some(seq![]),
    }
}

/// The condition on an index's status field for the status prefixes `ns`
/// to exclude: none when nothing known matches.
pub open spec fn excluded_conditions(index: Index, ns: Seq<Seq<char>>) -> Seq<Seq<char>> {
    match index_status_field(index) {
        Some(f) => if ns.len() > 0 {
            let m = keep_prefixed(index_statuses(index), ns);
            if m.len() == 0 {
                seq![]
            } else {
                seq![condition(f, m, true)]
            }
        } else {
            seq![]
        },
        None => seq![],
    }
}

/// The conditions a query puts on an index's documents, or `None` when the
/// query names users, or statuses to keep, and none match.
pub open spec fn query_conditions(users: Seq<User>, index: Index, query: Seq<char>) -> Option<
    Seq<Seq<char>>,
> {
    let ws = words(query);
    match (
        user_conditions(users, index, words_of_kind(ws, WordKind::Handle)),
        status_conditions(index, words_of_kind(ws, WordKind::Status)),
    ) {
        (Some(u), Some(s)) => Some(
            u + s + excluded_conditions(index, words_of_kind(ws, WordKind::NotStatus)),
        ),
        _ => None,
    }
}

/// The text to search for and the filter expression for `query` on `index`,
/// with `users` the known users; `None` when the query names users or
/// statuses that match nothing, so that nothing can be found.
pub fn build_query_filter(users: &[User], index: Index, query: &str) -> (r: Option<
    (String, Option<String>),
>)
    requires
        distinct_ids(users@),
    ensures
        match query_conditions(users@, index, query@) {
            None => r is None,
            Some(conds) => match r {
                Some((text, Some(f))) => text@ == join(
                    words_of_kind(words(query@), WordKind::Text),
                    " "@,
                ) && f@ == join(conds, " AND "@),
                _ => false,
            },
        },
{
    let (handles, statuses, not_statuses, text) = parse_query(query);
    let mut conditions: Vec<String> = Vec::new();
    let ghost hs = words_of_kind(words(query@), WordKind::Handle);
    let ghost st = words_of_kind(words(query@), WordKind::Status);
    let ghost ns = words_of_kind(words(query@), WordKind::NotStatus);
    if let Some(user_field) = index.user_field() {
        if handles.len() > 0 {
            let matching = handles_matching(users, handles.as_slice());
            if matching.len() == 0 {
                return None;
            }
            if let Some(cond) = filter_contains(user_field, matching.as_slice(), false) {
                conditions.push(cond);
            }
        }
    }
    assert(user_conditions(users@, index, hs) == Some(string_views(conditions@)));
    if let Some(status_field) = index.status_field() {
        if statuses.len() > 0 {
            let matching = index.statuses_matching(statuses.as_slice());
            if matching.len() == 0 {
                return None;
            }
            if let Some(cond) = filter_contains(status_field, matching.as_slice(), false) {
                conditions.push(cond);
            }
        }
    }
    assert(status_conditions(index, st) is Some);
    assert(string_views(conditions@) =~= user_conditions(users@, index, hs)->0 + status_conditions(
        index,
        st,
    )->0);
    if let Some(status_field) = index.status_field() {
        if not_statuses.len() > 0 {
            let matching = index.statuses_matching(not_statuses.as_slice());
            if let Some(cond) = filter_contains(status_field, matching.as_slice(), true) {
                conditions.push(cond);
            }
        }
    }
    assert(string_views(conditions@) =~= user_conditions(users@, index, hs)->0 + status_conditions(
        index,
        st,
    )->0 + excluded_conditions(index, ns));
    let filter = join_strings(&conditions, " AND ");
    Some((text, Some(filter)))
}

/// Every word of a query lands in exactly one of the handles, the statuses,
/// the excluded statuses and the text.
pub proof fn query_words_are_partitioned(ws: Seq<Seq<char>>)
    ensures
        words_of_kind(ws, WordKind::Handle).len() + words_of_kind(ws, WordKind::Status).len()
            + words_of_kind(ws, WordKind::NotStatus).len() + words_of_kind(ws, WordKind::Text).len()
            == ws.len(),
    decreases ws.len(),
{
    if ws.len() > 0 {
        query_words_are_partitioned(ws.drop_last());
    }
}

proof fn lemma_all_text(ws: Seq<Seq<char>>)
    requires
        forall|i: int| 0 <= i < ws.len() ==> word_kind(#[trigger] ws[i]) == WordKind::Text,
    ensures
        words_of_kind(ws, WordKind::Text) == ws,
        words_of_kind(ws, WordKind::Handle).len() == 0,
        words_of_kind(ws, WordKind::Status).len() == 0,
        words_of_kind(ws, WordKind::NotStatus).len() == 0,
    decreases ws.len(),
{
    if ws.len() > 0 {
        let init = ws.drop_last();
        assert forall|i: int| 0 <= i < init.len() implies word_kind(#[trigger] init[i])
            == WordKind::Text by {
            assert(init[i] == ws[i]);
        }
        lemma_all_text(init);
        assert(word_kind(ws[ws.len() - 1]) == WordKind::Text);
        assert(init.push(ws.last()) =~= ws);
    }
}

/// A query without `@`, `+` or `-` filters puts no condition on any index:
/// all its words are searched for, joined by single spaces.
pub proof fn plain_query_has_no_conditions(users: Seq<User>, index: Index, query: Seq<char>)
    requires
        forall|i: int|
            0 <= i < words(query).len() ==> word_kind(#[trigger] words(query)[i]) == WordKind::Text,
    ensures
        query_conditions(users, index, query) == Some(Seq::<Seq<char>>::empty()),
        words_of_kind(words(query), WordKind::Text) == words(query),
{
    lemma_all_text(words(query));
    assert(Seq::<Seq<char>>::empty() + Seq::<Seq<char>>::empty() + Seq::<Seq<char>>::empty()
        =~= Seq::<Seq<char>>::empty());
}

/// A user's id is selected exactly when the user's lower-cased handle
/// begins with one of the prefixes.
pub proof fn matching_ids_are_exactly_the_prefixed_users(
    users: Seq<User>,
    prefixes: Seq<Seq<char>>,
    id: Seq<char>,
)
    ensures
        matching_ids(users, prefixes).contains(id) <==> exists|i: int|
            0 <= i < users.len() && (#[trigger] users[i]).id@ == id && has_some_prefix(
                prefixes,
                users[i].handle_lower@,
            ),
    decreases users.len(),
{
    let m = matching_ids(users, prefixes);
    if users.len() == 0 {
        assert(!m.contains(id));
    } else {
        let init = users.drop_last();
        let last = users.last();
        matching_ids_are_exactly_the_prefixed_users(init, prefixes, id);
        let rest = matching_ids(init, prefixes);
        if has_some_prefix(prefixes, last.handle_lower@) {
            assert(m == rest.push(last.id@));
        } else {
            assert(m == rest);
        }
        if exists|i: int|
            0 <= i < users.len() && (#[trigger] users[i]).id@ == id && has_some_prefix(
                prefixes,
                users[i].handle_lower@,
            ) {
            let i = choose|i: int|
                0 <= i < users.len() && (#[trigger] users[i]).id@ == id && has_some_prefix(
                    prefixes,
                    users[i].handle_lower@,
                );
            if i < users.len() - 1 {
                assert(init[i] == users[i]);
                let j = choose|j: int| 0 <= j < rest.len() && rest[j] == id;
                assert(m[j] == id);
            } else {
                assert(m[rest.len() as int] == id);
            }
        }
        if m.contains(id) {
            let k = choose|k: int| 0 <= k < m.len() && m[k] == id;
            if k < rest.len() {
                assert(rest[k] == id);
                assert(rest.contains(id));
                let i = choose|i: int|
                    0 <= i < init.len() && (#[trigger] init[i]).id@ == id && has_some_prefix(
                        prefixes,
                        init[i].handle_lower@,
                    );
                assert(users[i] == init[i]);
            } else {
                assert(users[users.len() - 1] == last);
            }
        }
    }
}

/// The statuses of `statuses` that begin with one of `prefixes` are exactly
/// the members of `m`, and there is at least one.
pub open spec fn lists_exactly_prefixed(
    m: Seq<Seq<char>>,
    statuses: Seq<Seq<char>>,
    prefixes: Seq<Seq<char>>,
) -> bool {
    &&& m.len() > 0
    &&& forall|x: Seq<char>| #[trigger]
        m.contains(x) <==> (statuses.contains(x) && has_some_prefix(prefixes, x))
}

proof fn lemma_selection_empty(statuses: Seq<Seq<char>>, prefixes: Seq<Seq<char>>)
    ensures
        keep_prefixed(statuses, prefixes).len() == 0 <==> forall|x: Seq<char>|
            #[trigger] statuses.contains(x) ==> !has_some_prefix(prefixes, x),
        keep_prefixed(statuses, prefixes).len() > 0 ==> lists_exactly_prefixed(
            keep_prefixed(statuses, prefixes),
            statuses,
            prefixes,
        ),
{
    let m = keep_prefixed(statuses, prefixes);
    assert forall|x: Seq<char>| #[trigger]
        m.contains(x) <==> (statuses.contains(x) && has_some_prefix(prefixes, x)) by {
        prefix_selection_keeps_exactly_the_prefixed(statuses, prefixes, x);
    }
    if m.len() > 0 {
        assert(m.contains(m[0]));
        assert(statuses.contains(m[0]) && has_some_prefix(prefixes, m[0]));
    } else {
        assert forall|x: Seq<char>| #[trigger] statuses.contains(x) implies !has_some_prefix(
            prefixes,
            x,
        ) by {
            if has_some_prefix(prefixes, x) {
                assert(m.contains(x));
            }
        }
    }
}

/// A `+status` filter lists, as the values its status must have, exactly the
/// index's known statuses that begin with one of the given prefixes; it
/// rules everything out (`None`) exactly when no known status begins with
/// one of them. A `-status` filter lists exactly the known statuses to
/// exclude, and is dropped when there are none.
pub proof fn status_filters_list_exactly_the_selected_known_statuses(
    index: Index,
    prefixes: Seq<Seq<char>>,
)
    requires
        index_status_field(index) is Some,
        prefixes.len() > 0,
    ensures
        status_conditions(index, prefixes) is None <==> forall|x: Seq<char>|
            #[trigger] index_statuses(index).contains(x) ==> !has_some_prefix(prefixes, x),
        status_conditions(index, prefixes) matches Some(c) ==> exists|m: Seq<Seq<char>>|
            c == seq![condition(index_status_field(index)->0, m, false)] && lists_exactly_prefixed(
                m,
                index_statuses(index),
                prefixes,
            ),
        excluded_conditions(index, prefixes).len() == 0 <==> forall|x: Seq<char>|
            #[trigger] index_statuses(index).contains(x) ==> !has_some_prefix(prefixes, x),
        excluded_conditions(index, prefixes).len() > 0 ==> exists|m: Seq<Seq<char>>|
            excluded_conditions(index, prefixes) == seq![
                condition(index_status_field(index)->0, m, true),
            ] && lists_exactly_prefixed(m, index_statuses(index), prefixes),
{
    lemma_selection_empty(index_statuses(index), prefixes);
    let m = keep_prefixed(index_statuses(index), prefixes);
    if m.len() > 0 {
        assert(lists_exactly_prefixed(m, index_statuses(index), prefixes));
    }
}

/// An `@user` filter lists, as the values the user field must have, exactly
/// the ids of the users whose lower-cased handle begins with one of the
/// prefixes; it rules everything out (`None`) exactly when no user's does.
pub proof fn user_filter_lists_exactly_the_matching_users(
    users: Seq<User>,
    index: Index,
    prefixes: Seq<Seq<char>>,
)
    requires
        index_user_field(index) is Some,
        prefixes.len() > 0,
    ensures
        user_conditions(users, index, prefixes) is None <==> forall|i: int|
            0 <= i < users.len() ==> !has_some_prefix(prefixes, (#[trigger] users[i]).handle_lower@),
        user_conditions(users, index, prefixes) matches Some(c) ==> exists|m: Seq<Seq<char>>|
            c == seq![condition(index_user_field(index)->0, m, false)] && m.len() > 0 && forall|
                id: Seq<char>,
            | #[trigger]
                m.contains(id) <==> exists|i: int|
                    0 <= i < users.len() && (#[trigger] users[i]).id@ == id && has_some_prefix(
                        prefixes,
                        users[i].handle_lower@,
                    ),
{
    let m = matching_ids(users, prefixes);
    assert forall|id: Seq<char>| #[trigger]
        m.contains(id) <==> exists|i: int|
            0 <= i < users.len() && (#[trigger] users[i]).id@ == id && has_some_prefix(
                prefixes,
                users[i].handle_lower@,
            ) by {
        matching_ids_are_exactly_the_prefixed_users(users, prefixes, id);
    }
    if m.len() > 0 {
        assert(m.contains(m[0]));
        let i = choose|i: int|
            0 <= i < users.len() && (#[trigger] users[i]).id@ == m[0] && has_some_prefix(
                prefixes,
                users[i].handle_lower@,
            );
        assert(!(forall|i: int|
            0 <= i < users.len() ==> !has_some_prefix(prefixes, (#[trigger] users[i]).handle_lower@)));
    } else {
        assert forall|i: int| 0 <= i < users.len() implies !has_some_prefix(
            prefixes,
            (#[trigger] users[i]).handle_lower@,
        ) by {
            if has_some_prefix(prefixes, users[i].handle_lower@) {
                assert(m.contains(users[i].id@));
            }
        }
    }
}

/// Users are selected one by one, in order: the ids selected from two runs
/// of users are those from the first followed by those from the second, and
/// a single user's id is selected exactly when the user's lower-cased handle
/// begins with one of the prefixes.
pub proof fn user_selection_keeps_order(
    first: Seq<User>,
    second: Seq<User>,
    user: User,
    prefixes: Seq<Seq<char>>,
)
    ensures
        matching_ids(first + second, prefixes) == matching_ids(first, prefixes) + matching_ids(
            second,
            prefixes,
        ),
        matching_ids(seq![user], prefixes) == (if has_some_prefix(prefixes, user.handle_lower@) {
            seq![user.id@]
        } else {
            Seq::<Seq<char>>::empty()
        }),
    decreases second.len(),
{
    let one: Seq<User> = seq![user];
    assert(one.drop_last() =~= Seq::<User>::empty());
    assert(one.last() == user);
    assert(Seq::<Seq<char>>::empty().push(user.id@) =~= seq![user.id@]);
    assert(matching_ids(Seq::<User>::empty(), prefixes) == Seq::<Seq<char>>::empty());
    assert(matching_ids(one, prefixes) == if has_some_prefix(prefixes, user.handle_lower@) {
        matching_ids(one.drop_last(), prefixes).push(user.id@)
    } else {
        matching_ids(one.drop_last(), prefixes)
    });
    if second.len() == 0 {
        assert(first + second =~= first);
        assert(matching_ids(first, prefixes) + Seq::<Seq<char>>::empty() =~= matching_ids(
            first,
            prefixes,
        ));
    } else {
        user_selection_keeps_order(first, second.drop_last(), user, prefixes);
        assert((first + second).drop_last() =~= first + second.drop_last());
        assert((first + second).last() == second.last());
        assert((matching_ids(first, prefixes) + matching_ids(second.drop_last(), prefixes)).push(
            second.last().id@,
        ) =~= matching_ids(first, prefixes) + matching_ids(second.drop_last(), prefixes).push(
            second.last().id@,
        ));
    }
}

/// The words of a query are sorted one by one, in order: sorting two runs
/// of words gives the sorting of the first followed by that of the second,
/// and a single word goes to its own kind, without its marker unless it is
/// text.
pub proof fn query_words_are_sorted_in_order(
    first: Seq<Seq<char>>,
    second: Seq<Seq<char>>,
    word: Seq<char>,
    k: WordKind,
)
    ensures
        words_of_kind(first + second, k) == words_of_kind(first, k) + words_of_kind(second, k),
        words_of_kind(seq![word], k) == (if word_kind(word) == k {
            seq![
                if k is Text {
                    word
                } else {
                    word.drop_first()
                },
            ]
        } else {
            Seq::<Seq<char>>::empty()
        }),
        tagged(word, '@') ==> word_kind(word) == WordKind::Handle,
        !tagged(word, '@') && tagged(word, '+') ==> word_kind(word) == WordKind::Status,
        !tagged(word, '@') && !tagged(word, '+') && tagged(word, '-') ==> word_kind(word)
            == WordKind::NotStatus,
        !tagged(word, '@') && !tagged(word, '+') && !tagged(word, '-') ==> word_kind(word)
            == WordKind::Text,
    decreases second.len(),
{
    let one: Seq<Seq<char>> = seq![word];
    assert(one.drop_last() =~= Seq::<Seq<char>>::empty());
    assert(one.last() == word);
    let payload = if k is Text {
        word
    } else {
        word.drop_first()
    };
    assert(Seq::<Seq<char>>::empty().push(payload) =~= seq![payload]);
    assert(words_of_kind(Seq::<Seq<char>>::empty(), k) == Seq::<Seq<char>>::empty());
    assert(words_of_kind(one, k) == if word_kind(word) == k {
        words_of_kind(one.drop_last(), k).push(payload)
    } else {
        words_of_kind(one.drop_last(), k)
    });
    if second.len() == 0 {
        assert(first + second =~= first);
        assert(words_of_kind(first, k) + Seq::<Seq<char>>::empty() =~= words_of_kind(first, k));
    } else {
        query_words_are_sorted_in_order(first, second.drop_last(), word, k);
        assert((first + second).drop_last() =~= first + second.drop_last());
        assert((first + second).last() == second.last());
        let w = second.last();
        let p = if k is Text {
            w
        } else {
            w.drop_first()
        };
        assert((words_of_kind(first, k) + words_of_kind(second.drop_last(), k)).push(p)
            =~= words_of_kind(first, k) + words_of_kind(second.drop_last(), k).push(p));
    }
}

/// The quoted list of two runs of values is that of the first followed by
/// that of the second, and a single value is quoted and followed by a comma.
pub proof fn quoted_lists_quote_each_value(
    first: Seq<Seq<char>>,
    second: Seq<Seq<char>>,
    value: Seq<char>,
)
    ensures
        quoted_list(first + second) == quoted_list(first) + quoted_list(second),
        quoted_list(seq![value]) == "\""@ + value + "\","@,
    decreases second.len(),
{
    let one: Seq<Seq<char>> = seq![value];
    assert(one.drop_last() =~= Seq::<Seq<char>>::empty());
    assert(one.last() == value);
    assert(Seq::<char>::empty() + "\""@ + value + "\","@ =~= "\""@ + value + "\","@);
    assert(quoted_list(Seq::<Seq<char>>::empty()) == Seq::<char>::empty());
    assert(quoted_list(one) == quoted_list(one.drop_last()) + "\""@ + value + "\","@);
    if second.len() == 0 {
        assert(first + second =~= first);
        assert(quoted_list(first) + Seq::<char>::empty() =~= quoted_list(first));
    } else {
        quoted_lists_quote_each_value(first, second.drop_last(), value);
        assert((first + second).drop_last() =~= first + second.drop_last());
        assert((first + second).last() == second.last());
        let v = second.last();
        assert(quoted_list(first) + quoted_list(second.drop_last()) + "\""@ + v + "\","@
            =~= quoted_list(first) + (quoted_list(second.drop_last()) + "\""@ + v + "\","@));
    }
}

/// A query's conditions are its user condition, then its status condition,
/// then its excluded-status condition, each present only when the query
/// asks for it; the query rules everything out exactly when it names users
/// (on an index with a user field) of whom none matches, or statuses to keep
/// (on an index with a status field) of which none is known.
pub proof fn query_conditions_combine_user_status_and_exclusion(
    users: Seq<User>,
    index: Index,
    query: Seq<char>,
)
    ensures
        ({
            let ws = words(query);
            let hs = words_of_kind(ws, WordKind::Handle);
            let st = words_of_kind(ws, WordKind::Status);
            let ns = words_of_kind(ws, WordKind::NotStatus);
            &&& query_conditions(users, index, query) is None <==> ((index_user_field(index) is Some
                && hs.len() > 0 && forall|i: int|
                0 <= i < users.len() ==> !has_some_prefix(hs, (#[trigger] users[i]).handle_lower@))
                || (index_status_field(index) is Some && st.len() > 0 && forall|x: Seq<char>|
                #[trigger] index_statuses(index).contains(x) ==> !has_some_prefix(st, x)))
            &&& query_conditions(users, index, query) matches Some(c) ==> c == user_conditions(
                users,
                index,
                hs,
            )->0 + status_conditions(index, st)->0 + excluded_conditions(index, ns)
            &&& (index_user_field(index) is None || hs.len() == 0) ==> user_conditions(
                users,
                index,
                hs,
            ) == Some(Seq::<Seq<char>>::empty())
            &&& (index_status_field(index) is None || st.len() == 0) ==> status_conditions(
                index,
                st,
            ) == Some(Seq::<Seq<char>>::empty())
            &&& (index_status_field(index) is None || ns.len() == 0) ==> excluded_conditions(
                index,
                ns,
            ) == Seq::<Seq<char>>::empty()
        }),
{
    let ws = words(query);
    let hs = words_of_kind(ws, WordKind::Handle);
    let st = words_of_kind(ws, WordKind::Status);
    if index_user_field(index) is Some && hs.len() > 0 {
        user_filter_lists_exactly_the_matching_users(users, index, hs);
    }
    if index_status_field(index) is Some && st.len() > 0 {
        status_filters_list_exactly_the_selected_known_statuses(index, st);
    }
}

} // verus!
