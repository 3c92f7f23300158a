//! The workflow's commands, how the typed argument selects one, and the
//! result entries shown for commands, diffs, tasks, wiki pages and
//! repositories.

use vstd::prelude::*;
use crate::meili::Index;
use crate::query::{build_query_filter, query_conditions, words_of_kind, WordKind};
use crate::types::{User, distinct_ids};
use crate::text::{
    split_first_ws, lemma_split_first_ws, split_once_ws, trim, trim_ws, lowercase, to_lowercase,
    is_prefix, starts_with, str_eq, is_ws, no_ws, join, words,
};

verus! {

/// A command of the workflow.
#[derive(Debug, Clone, Copy, PartialEq, Eq, Structural)]
pub enum Command {
    Diffs,
    Tasks,
    Pages,
    Repos,
    Search,
}

/// All commands, in the order they are offered.
pub open spec fn all_commands() -> Seq<Command> {
    seq![Command::Diffs, Command::Tasks, Command::Pages, Command::Repos, Command::Search]
}

/// The name a command is typed as.
pub open spec fn command_name(c: Command) -> Seq<char> {
    match c {
        Command::Diffs => "diffs"@,
        Command::Tasks => "tasks"@,
        Command::Pages => "wiki"@,
        Command::Repos => "repo"@,
        Command::Search => "search"@,
    }
}

/// The command with name `n`, if any.
pub open spec fn command_named(n: Seq<char>) -> Option<Command> {
    if n == "diffs"@ {
        Some(Command::Diffs)
    } else if n == "tasks"@ {
        Some(Command::Tasks)
    } else if n == "wiki"@ {
        Some(Command::Pages)
    } else if n == "repo"@ {
        Some(Command::Repos)
    } else if n == "search"@ {
        Some(Command::Search)
    } else {
        None
    }
}

/// The commands of `cs` whose name begins with `p`, in order.
pub open spec fn commands_starting_with(cs: Seq<Command>, p: Seq<char>) -> Seq<Command>
    decreases cs.len(),
{
    if cs.len() == 0 {
        seq![]
    } else {
        let rest = commands_starting_with(cs.drop_last(), p);
        if is_prefix(p, command_name(cs.last())) {
            rest.push(cs.last())
        } else {
            rest
        }
    }
}

/// What the typed argument leads to.
#[derive(Debug)]
pub enum Route {
    /// Offer these commands to choose from.
    Offer(Vec<Command>),
    /// Run the command with this search query.
    Run(Command, String),
    /// No command begins with this text.
    Unknown(String),
}

/// `r` is where the normalized argument `arg` leads: its first word names a
/// command to run with the rest as query; otherwise the commands whose name
/// begins with the first word are offered, if there are any.
pub open spec fn routes_to(r: Route, arg: Seq<char>) -> bool {
    let (cmd, query) = split_first_ws(arg);
    match command_named(cmd) {
        Some(c) => r matches Route::Run(rc, q) && rc == c && q@ == query,
        None => {
            let offered = commands_starting_with(all_commands(), cmd);
            if offered.len() == 0 {
                r matches Route::Unknown(u) && u@ == cmd
            } else {
                r matches Route::Offer(v) && v@ == offered
            }
        },
    }
}

impl Command {
    /// All commands, in the order they are offered.
    pub fn all() -> (r: [Command; 5])
        ensures
            r@ == all_commands(),
    {
        let r = [Command::Diffs, Command::Tasks, Command::Pages, Command::Repos, Command::Search];
        assert(r@ =~= all_commands());
        r
    }

    /// The name this command is typed as.
    pub fn name(&self) -> (r: &'static str)
        ensures
            r@ == command_name(*self),
    {
        match self {
            Command::Diffs => "diffs",
            Command::Tasks => "tasks",
            Command::Pages => "wiki",
            Command::Repos => "repo",
            Command::Search => "search",
        }
    }

    /// The description shown under this command.
    pub fn subtitle(&self) -> (r: &'static str)
        ensures
            r@ == command_subtitle(*self),
    {
        match self {
            Command::Diffs => "Search differential revisions",
            Command::Tasks => "Search maniphest tasks",
            Command::Pages => "Search phriction pages",
            Command::Repos => "Search repositories",
            Command::Search => "Search all available content",
        }
    }

    /// The icon shown for this command.
    pub fn icon(&self) -> (r: &'static str)
        ensures
            r@ == command_icon(*self),
    {
        match self {
            Command::Diffs => "./assets/diff.png",
            Command::Tasks => "./assets/task.png",
            Command::Pages => "./assets/wiki.png",
            Command::Repos => "./assets/repo.png",
            Command::Search => "./assets/search.png",
        }
    }

    /// The search index this command searches on its own, if any.
    pub fn index(&self) -> (r: Option<Index>)
        ensures
            r == command_index(*self),
    {
        match self {
            Command::Diffs => Some(Index::Diffs),
            Command::Tasks => Some(Index::Tasks),
            Command::Pages => Some(Index::Pages),
            Command::Repos => None,
            Command::Search => None,
        }
    }
}

/// The description shown under a command.
pub open spec fn command_subtitle(c: Command) -> Seq<char> {
    match c {
        Command::Diffs => "Search differential revisions"@,
        Command::Tasks => "Search maniphest tasks"@,
        Command::Pages => "Search phriction pages"@,
        Command::Repos => "Search repositories"@,
        Command::Search => "Search all available content"@,
    }
}

/// The icon shown for a command.
pub open spec fn command_icon(c: Command) -> Seq<char> {
    match c {
        Command::Diffs => "./assets/diff.png"@,
        Command::Tasks => "./assets/task.png"@,
        Command::Pages => "./assets/wiki.png"@,
        Command::Repos => "./assets/repo.png"@,
        Command::Search => "./assets/search.png"@,
    }
}

/// The search index a command searches on its own.
pub open spec fn command_index(c: Command) -> Option<Index> {
    match c {
        Command::Diffs => Some(Index::Diffs),
        Command::Tasks => Some(Index::Tasks),
        Command::Pages => Some(Index::Pages),
        _ => None,
    }
}

/// The command named `n`, if any.
fn find_command(n: &str) -> (r: Option<Command>)
    ensures
        r == command_named(n@),
{
    if str_eq(n, "diffs") {
        Some(Command::Diffs)
    } else if str_eq(n, "tasks") {
        Some(Command::Tasks)
    } else if str_eq(n, "wiki") {
        Some(Command::Pages)
    } else if str_eq(n, "repo") {
        Some(Command::Repos)
    } else if str_eq(n, "search") {
        Some(Command::Search)
    } else {
        None
    }
}

/// Where an argument that is already trimmed and lower-cased leads.
pub fn route_normalized(arg: &str) -> (r: Route)
    ensures
        routes_to(r, arg@),
{
    let (cmd, query) = match split_once_ws(arg) {
        Some((head, tail)) => {
            proof {
                let k = choose|k: int|
                    0 <= k < arg@.len() && is_ws(arg@[k]) && head@ == arg@.subrange(0, k) && tail@
                        == arg@.subrange(k + 1, arg@.len() as int) && no_ws(head@);
                lemma_split_first_ws(arg@, k);
                assert(split_first_ws(arg@) == (head@, tail@));
            }
            (head, tail)
        },
        None => {
            proof {
                assert(arg@.subrange(0, arg@.len() as int) =~= arg@);
                lemma_split_first_ws(arg@, arg@.len() as int);
            }
            proof {
                reveal_strlit("");
                assert(split_first_ws(arg@) == (arg@, ""@));
            }
            (arg, "")
        },
    };
    assert(split_first_ws(arg@) == (cmd@, query@));
    match find_command(cmd) {
        Some(c) => Route::Run(c, String::from_str(query)),
        None => {
            let all = Command::all();
            let mut offered: Vec<Command> = Vec::new();
            let mut i: usize = 0;
            while i < 5
                invariant
                    all@ == all_commands(),
                    i <= 5,
                    offered@ == commands_starting_with(all_commands().subrange(0, i as int), cmd@),
                decreases 5 - i,
            {
                assert(all_commands().subrange(0, i + 1).drop_last() =~= all_commands().subrange(
                    0,
                    i as int,
                ));
                let c = all[i];
                if starts_with(c.name(), cmd) {
                    offered.push(c);
                }
                i += 1;
            }
            assert(all_commands().subrange(0, 5) =~= all_commands());
            if offered.len() == 0 {
                Route::Unknown(String::from_str(cmd))
            } else {
                Route::Offer(offered)
            }
        },
    }
}

/// Where the workflow's argument leads: with none, all commands are
/// offered; otherwise the argument, trimmed and lower-cased, is routed.
pub fn route(arg: Option<&str>) -> (r: Route)
    ensures
        match arg {
            None => r matches Route::Offer(v) && v@ == all_commands(),
            Some(a) => routes_to(r, lowercase(trim(a@))),
        },
{
    match arg {
        None => {
            let v = vec![
                Command::Diffs,
                Command::Tasks,
                Command::Pages,
                Command::Repos,
                Command::Search,
            ];
            assert(v@ =~= all_commands());
            Route::Offer(v)
        },
        Some(a) => {
            let normalized = to_lowercase(trim_ws(a));
            route_normalized(normalized.as_str())
        },
    }
}

/// How many results a command lists at most.
pub const RESULT_LIMIT: usize = 20;

/// What running a command with a query does.
#[derive(Debug)]
pub enum Plan {
    /// Search one index for `text`, restricted by `filter`, listing at most `limit` hits.
    SearchIndex { index: Index, text: String, filter: Option<String>, limit: usize },
    /// The query's filters match nothing, so nothing is listed.
    Nothing,
    /// List at most `limit` repositories whose name matches the query.
    Repositories { limit: usize },
    /// Search all indexes for the query, listing at most `limit` hits.
    SearchAll { limit: usize },
}

/// `p` is what running `c` with `query` does, given the known `users`.
pub open spec fn plans(p: Plan, c: Command, users: Seq<User>, query: Seq<char>) -> bool {
    match command_index(c) {
        Some(index) => match query_conditions(users, index, query) {
            None => p is Nothing,
            Some(conds) => match p {
                Plan::SearchIndex { index: pi, text, filter: Some(f), limit } => {
                    &&& pi == index
                    &&& text@ == join(words_of_kind(words(query), WordKind::Text), " "@)
                    &&& f@ == join(conds, " AND "@)
                    &&& limit == RESULT_LIMIT
                },
                _ => false,
            },
        },
        None => if c == Command::Repos {
            p matches Plan::Repositories { limit } && limit == RESULT_LIMIT
        } else {
            p matches Plan::SearchAll { limit } && limit == RESULT_LIMIT
        },
    }
}

impl Command {
    /// What running this command with `query` does: the diff, task and wiki
    /// commands search their own index with the query's filters, the
    /// repository command lists matching repositories, and the search
    /// command searches everything.
    pub fn plan(&self, users: &[User], query: &str) -> (r: Plan)
        requires
            distinct_ids(users@),
        ensures
            plans(r, *self, users@, query@),
    {
        match self.index() {
            Some(index) => match build_query_filter(users, index, query) {
                Some((text, filter)) => Plan::SearchIndex { index, text, filter, limit: RESULT_LIMIT },
                None => Plan::Nothing,
            },
            None => match self {
                Command::Repos => Plan::Repositories { limit: RESULT_LIMIT },
                _ => Plan::SearchAll { limit: RESULT_LIMIT },
            },
        }
    }
}

proof fn lemma_command_names()
    ensures
        forall|c: Command| #[trigger] command_named(command_name(c)) == Some(c),
        forall|c: Command| no_ws(#[trigger] command_name(c)),
        forall|c: Command| #[trigger] command_name(c).len() > 0,
{
    reveal_strlit("diffs");
    reveal_strlit("tasks");
    reveal_strlit("wiki");
    reveal_strlit("repo");
    reveal_strlit("search");
    assert("tasks"@ != "diffs"@) by {
        assert("tasks"@[0] != "diffs"@[0]);
    }
    assert("wiki"@ != "diffs"@) by {
        assert("wiki"@.len() != "diffs"@.len());
    }
    assert("wiki"@ != "tasks"@) by {
        assert("wiki"@.len() != "tasks"@.len());
    }
    assert("repo"@ != "diffs"@) by {
        assert("repo"@[0] != "diffs"@[0]);
    }
    assert("repo"@ != "tasks"@) by {
        assert("repo"@[0] != "tasks"@[0]);
    }
    assert("repo"@ != "wiki"@) by {
        assert("repo"@[0] != "wiki"@[0]);
    }
    assert("search"@ != "diffs"@) by {
        assert("search"@.len() != "diffs"@.len());
    }
    assert("search"@ != "tasks"@) by {
        assert("search"@.len() != "tasks"@.len());
    }
    assert("search"@ != "wiki"@) by {
        assert("search"@.len() != "wiki"@.len());
    }
    assert("search"@ != "repo"@) by {
        assert("search"@.len() != "repo"@.len());
    }
}

/// Typing a command's name, then white space and a query, runs that command
/// with that query; typing the name alone runs it with an empty query.
pub proof fn typing_a_command_name_runs_it(c: Command, query: Seq<char>, r: Route)
    ensures
        routes_to(r, command_name(c) + " "@ + query) <==> (r matches Route::Run(rc, q) && rc == c
            && q@ == query),
        routes_to(r, command_name(c)) <==> (r matches Route::Run(rc, q) && rc == c && q@
            == Seq::<char>::empty()),
{
    lemma_command_names();
    reveal_strlit(" ");
    let n = command_name(c);
    let arg = n + " "@ + query;
    assert(arg.subrange(0, n.len() as int) =~= n);
    assert(arg.subrange(n.len() as int + 1, arg.len() as int) =~= query);
    assert(arg[n.len() as int] == ' ');
    lemma_split_first_ws(arg, n.len() as int);
    assert(n.subrange(0, n.len() as int) =~= n);
    lemma_split_first_ws(n, n.len() as int);
}

/// Every command offered for a typed word has a name that begins with that word.
pub proof fn offered_commands_begin_with_typed_word(cs: Seq<Command>, p: Seq<char>, i: int)
    requires
        0 <= i < commands_starting_with(cs, p).len(),
    ensures
        is_prefix(p, command_name(commands_starting_with(cs, p)[i])),
        cs.contains(commands_starting_with(cs, p)[i]),
    decreases cs.len(),
{
    let rest = commands_starting_with(cs.drop_last(), p);
    if i < rest.len() {
        offered_commands_begin_with_typed_word(cs.drop_last(), p, i);
        let x = rest[i];
        let k = choose|k: int| 0 <= k < cs.drop_last().len() && cs.drop_last()[k] == x;
        assert(cs[k] == x);
    } else {
        assert(cs[cs.len() - 1] == cs.last());
    }
}

/// A name selects the command with exactly that name, and nothing else.
pub proof fn a_name_selects_only_its_command(n: Seq<char>, c: Command)
    ensures
        command_named(n) == Some(c) <==> command_name(c) == n,
{
    lemma_command_names();
    if command_named(n) == Some(c) {
        reveal_strlit("diffs");
        reveal_strlit("tasks");
        reveal_strlit("wiki");
        reveal_strlit("repo");
        reveal_strlit("search");
    }
}

/// Offering commands judges each command on its own and keeps their order:
/// the commands offered from two runs are those from the first followed by
/// those from the second, and a single command is offered exactly when its
/// name begins with the typed word.
pub proof fn offered_commands_keep_their_order(
    first: Seq<Command>,
    second: Seq<Command>,
    c: Command,
    p: Seq<char>,
)
    ensures
        commands_starting_with(first + second, p) == commands_starting_with(first, p)
            + commands_starting_with(second, p),
        commands_starting_with(seq![c], p) == (if is_prefix(p, command_name(c)) {
            seq![c]
        } else {
            Seq::<Command>::empty()
        }),
    decreases second.len(),
{
    let one: Seq<Command> = seq![c];
    assert(one.drop_last() =~= Seq::<Command>::empty());
    assert(one.last() == c);
    assert(Seq::<Command>::empty().push(c) =~= seq![c]);
    assert(commands_starting_with(Seq::<Command>::empty(), p) == Seq::<Command>::empty());
    assert(commands_starting_with(one, p) == if is_prefix(p, command_name(c)) {
        commands_starting_with(one.drop_last(), p).push(c)
    } else {
        commands_starting_with(one.drop_last(), p)
    });
    if second.len() == 0 {
        assert(first + second =~= first);
        assert(commands_starting_with(first, p) + Seq::<Command>::empty() =~= commands_starting_with(
            first,
            p,
        ));
    } else {
        offered_commands_keep_their_order(first, second.drop_last(), c, p);
        assert((first + second).drop_last() =~= first + second.drop_last());
        assert((first + second).last() == second.last());
        assert((commands_starting_with(first, p) + commands_starting_with(second.drop_last(), p)).push(
            second.last(),
        ) =~= commands_starting_with(first, p) + commands_starting_with(second.drop_last(), p).push(
            second.last(),
        ));
    }
}

} // verus!
