//! Verified string helpers over `Seq<char>` views.

use vstd::prelude::*;

verus! {

/// Unicode `White_Space` (the property that `char::is_whitespace` tests).
pub open spec fn is_ws(c: char) -> bool {
    ||| ('\u{9}' <= c && c <= '\u{d}')
    ||| c == ' '
    ||| c == '\u{85}'
    ||| c == '\u{a0}'
    ||| c == '\u{1680}'
    ||| ('\u{2000}' <= c && c <= '\u{200a}')
    ||| c == '\u{2028}'
    ||| c == '\u{2029}'
    ||| c == '\u{202f}'
    ||| c == '\u{205f}'
    ||| c == '\u{3000}'
}

/// Whether `c` is a Unicode white-space character.
pub fn is_whitespace(c: char) -> (r: bool)
    ensures
        r == is_ws(c),
{
    ('\u{9}' <= c && c <= '\u{d}') || c == ' ' || c == '\u{85}' || c == '\u{a0}' || c
        == '\u{1680}' || ('\u{2000}' <= c && c <= '\u{200a}') || c == '\u{2028}' || c
        == '\u{2029}' || c == '\u{202f}' || c == '\u{205f}' || c == '\u{3000}'
}


/// The views of a sequence of string slices.
pub open spec fn views(v: Seq<&str>) -> Seq<Seq<char>> {
    v.map_values(|w: &str| w@)
}

/// Scanning `s` left to right: the words finished so far, and the word being read.
pub open spec fn scan_words(s: Seq<char>) -> (Seq<Seq<char>>, Seq<char>)
    decreases s.len(),
{
    if s.len() == 0 {
        (seq![], seq![])
    } else {
        let (done, cur) = scan_words(s.drop_last());
        if is_ws(s.last()) {
            if cur.len() > 0 {
                (done.push(cur), seq![])
            } else {
                (done, seq![])
            }
        } else {
            (done, cur.push(s.last()))
        }
    }
}

/// The maximal runs of non-white-space characters of `s`, in order
/// (what `str::split_whitespace` yields).
pub open spec fn words(s: Seq<char>) -> Seq<Seq<char>> {
    let (done, cur) = scan_words(s);
    if cur.len() > 0 {
        done.push(cur)
    } else {
        done
    }
}

/// Splits `s` into its white-space separated words.
pub fn split_whitespace<'a>(s: &'a str) -> (r: Vec<&'a str>)
    ensures
        views(r@) == words(s@),
{
    let n = s.unicode_len();
    let mut out: Vec<&'a str> = Vec::new();
    let mut start: usize = 0;
    let mut in_word = false;
    let mut i: usize = 0;
    while i < n
        invariant
            n == s@.len(),
            i <= n,
            start <= i,
            in_word ==> start < i,
            scan_words(s@.subrange(0, i as int)).0 == views(out@),
            scan_words(s@.subrange(0, i as int)).1 == (if in_word {
                s@.subrange(start as int, i as int)
            } else {
                seq![]
            }),
        decreases n - i,
    {
        let c = s.get_char(i);
        let ghost pre = s@.subrange(0, i as int);
        assert(s@.subrange(0, i + 1).drop_last() =~= pre);
        assert(s@.subrange(0, i + 1).last() == c);
        if is_whitespace(c) {
            if in_word {
                let w = s.substring_char(start, i);
                out.push(w);
                assert(views(out@) =~= scan_words(pre).0.push(w@));
                in_word = false;
            }
        } else {
            if !in_word {
                start = i;
                in_word = true;
            }
            assert(s@.subrange(start as int, i + 1) =~= (if start == i {
                seq![]
            } else {
                s@.subrange(start as int, i as int)
            }).push(c));
        }
        i += 1;
    }
    assert(s@.subrange(0, n as int) =~= s@);
    if in_word {
        let w = s.substring_char(start, n);
        out.push(w);
        assert(views(out@) =~= scan_words(s@).0.push(w@));
    }
    out
}


/// `parts` joined with `sep` between consecutive parts.
pub open spec fn join(parts: Seq<Seq<char>>, sep: Seq<char>) -> Seq<char>
    decreases parts.len(),
{
    if parts.len() == 0 {
        seq![]
    } else if parts.len() == 1 {
        parts[0]
    } else {
        join(parts.drop_last(), sep) + sep + parts.last()
    }
}

/// Joins the slices with `sep` between them (as `[&str]::join`).
pub fn join_strs(parts: &Vec<&str>, sep: &str) -> (r: String)
    ensures
        r@ == join(views(parts@), sep@),
{
    let mut res = String::new();
    let n = parts.len();
    let mut i: usize = 0;
    while i < n
        invariant
            n == parts@.len(),
            i <= n,
            res@ == join(views(parts@).subrange(0, i as int), sep@),
        decreases n - i,
    {
        let ghost prev = views(parts@).subrange(0, i as int);
        assert(views(parts@).subrange(0, i + 1).drop_last() =~= prev);
        if i != 0 {
            res.append(sep);
        } else {
            assert(views(parts@).subrange(0, 1) =~= seq![parts@[0]@]);
        }
        res.append(parts[i]);
        i += 1;
    }
    assert(views(parts@).subrange(0, n as int) =~= views(parts@));
    res
}

/// The views of a sequence of owned strings.
pub open spec fn string_views(v: Seq<String>) -> Seq<Seq<char>> {
    v.map_values(|w: String| w@)
}

/// Joins owned strings with `sep` between them.
pub fn join_strings(parts: &Vec<String>, sep: &str) -> (r: String)
    ensures
        r@ == join(string_views(parts@), sep@),
{
    let mut refs: Vec<&str> = Vec::new();
    let n = parts.len();
    let mut i: usize = 0;
    while i < n
        invariant
            n == parts@.len(),
            i <= n,
            views(refs@) =~= string_views(parts@).subrange(0, i as int),
        decreases n - i,
    {
        let w = parts[i].as_str();
        let ghost before = refs@;
        refs.push(w);
        assert(refs@ == before.push(w));
        assert(w@ == parts@[i as int]@);
        assert(views(refs@) =~= views(before).push(w@));
        assert(string_views(parts@).subrange(0, i + 1) =~= string_views(parts@).subrange(
            0,
            i as int,
        ).push(parts@[i as int]@));
        i += 1;
    }
    assert(views(refs@) =~= string_views(parts@));
    join_strs(&refs, sep)
}

/// Whether two strings hold the same characters.
pub fn str_eq(a: &str, b: &str) -> (r: bool)
    ensures
        r == (a@ == b@),
{
    let n = a.unicode_len();
    let m = b.unicode_len();
    if n != m {
        return false;
    }
    let mut i: usize = 0;
    while i < n
        invariant
            n == a@.len(),
            n == b@.len(),
            i <= n,
            forall|j: int| 0 <= j < i ==> a@[j] == b@[j],
        decreases n - i,
    {
        if a.get_char(i) != b.get_char(i) {
            return false;
        }
        i += 1;
    }
    assert(a@ =~= b@);
    true
}

/// `p` is a prefix of `s`.
pub open spec fn is_prefix(p: Seq<char>, s: Seq<char>) -> bool {
    p.len() <= s.len() && s.subrange(0, p.len() as int) == p
}

/// Whether `s` starts with `p`.
pub fn starts_with(s: &str, p: &str) -> (r: bool)
    ensures
        r == is_prefix(p@, s@),
{
    let n = s.unicode_len();
    let m = p.unicode_len();
    if m > n {
        return false;
    }
    let mut i: usize = 0;
    while i < m
        invariant
            n == s@.len(),
            m == p@.len(),
            m <= n,
            i <= m,
            forall|j: int| 0 <= j < i ==> s@[j] == p@[j],
        decreases m - i,
    {
        if s.get_char(i) != p.get_char(i) {
            assert(s@.subrange(0, m as int)[i as int] != p@[i as int]);
            return false;
        }
        i += 1;
    }
    assert(s@.subrange(0, m as int) =~= p@);
    true
}

/// What follows `c` when `s` starts with `c`.
pub open spec fn strip_char(s: Seq<char>, c: char) -> Option<Seq<char>> {
    if s.len() > 0 && s[0] == c {
        Some(s.drop_first())
    } else {
        None
    }
}

/// Removes a leading `c` (as `str::strip_prefix` with a `char`).
pub fn strip_prefix_char<'a>(s: &'a str, c: char) -> (r: Option<&'a str>)
    ensures
        match r {
            Some(rest) => strip_char(s@, c) == Some(rest@),
            None => strip_char(s@, c) is None,
        },
{
    let n = s.unicode_len();
    if n > 0 && s.get_char(0) == c {
        let rest = s.substring_char(1, n);
        assert(rest@ =~= s@.drop_first());
        Some(rest)
    } else {
        None
    }
}

/// `needle` occurs as a contiguous run inside `hay`.
pub open spec fn occurs_in(needle: Seq<char>, hay: Seq<char>) -> bool {
    exists|i: int|
        0 <= i && i + needle.len() <= hay.len() && #[trigger] hay.subrange(i, i + needle.len())
            == needle
}

/// Whether `needle` occurs inside `hay` (as `str::contains` with a `&str`).
pub fn contains_str(hay: &str, needle: &str) -> (r: bool)
    ensures
        r == occurs_in(needle@, hay@),
{
    let n = hay.unicode_len();
    let m = needle.unicode_len();
    if m > n {
        return false;
    }
    if m == 0 {
        assert(hay@.subrange(0int, 0int + needle@.len()) =~= needle@);
        return true;
    }
    let mut i: usize = 0;
    while i <= n - m
        invariant
            n == hay@.len(),
            m == needle@.len(),
            0 < m <= n,
            i <= n - m + 1,
            forall|k: int| 0 <= k < i ==> #[trigger] hay@.subrange(k, k + m) != needle@,
        decreases n - m + 1 - i,
    {
        let mut j: usize = 0;
        let mut same = true;
        while j < m
            invariant
                n == hay@.len(),
                m == needle@.len(),
                i + m <= n,
                j <= m,
                same ==> forall|t: int| 0 <= t < j ==> hay@[i + t] == needle@[t],
                !same ==> hay@.subrange(i as int, i + m) != needle@,
            decreases m - j,
        {
            if same && hay.get_char(i + j) != needle.get_char(j) {
                same = false;
                assert(hay@.subrange(i as int, i + m)[j as int] != needle@[j as int]);
            }
            j += 1;
        }
        if same {
            assert(hay@.subrange(i as int, i + m) =~= needle@);
            return true;
        }
        i += 1;
    }
    assert forall|k: int| 0 <= k && k + needle@.len() <= hay@.len() implies #[trigger] hay@.subrange(
        k,
        k + needle@.len(),
    ) != needle@ by {
        assert(k < i);
    }
    false
}


/// `s` without its leading white space.
pub open spec fn trim_start(s: Seq<char>) -> Seq<char>
    decreases s.len(),
{
    if s.len() > 0 && is_ws(s[0]) {
        trim_start(s.drop_first())
    } else {
        s
    }
}

/// `s` without its trailing white space.
pub open spec fn trim_end(s: Seq<char>) -> Seq<char>
    decreases s.len(),
{
    if s.len() > 0 && is_ws(s.last()) {
        trim_end(s.drop_last())
    } else {
        s
    }
}

/// `s` without leading and trailing white space (as `str::trim`).
pub open spec fn trim(s: Seq<char>) -> Seq<char> {
    trim_end(trim_start(s))
}

/// Removes leading and trailing white space.
pub fn trim_ws<'a>(s: &'a str) -> (r: &'a str)
    ensures
        r@ == trim(s@),
{
    let n = s.unicode_len();
    let mut a: usize = 0;
    assert(s@.subrange(0, n as int) =~= s@);
    while a < n && is_whitespace(s.get_char(a))
        invariant
            n == s@.len(),
            a <= n,
            trim_start(s@) == trim_start(s@.subrange(a as int, n as int)),
        decreases n - a,
    {
        assert(s@.subrange(a as int, n as int).drop_first() =~= s@.subrange(a + 1, n as int));
        a += 1;
    }
    assert(trim_start(s@) == s@.subrange(a as int, n as int));
    let mut b: usize = n;
    while b > a && is_whitespace(s.get_char(b - 1))
        invariant
            n == s@.len(),
            a <= b <= n,
            trim(s@) == trim_end(s@.subrange(a as int, b as int)),
        decreases b,
    {
        assert(s@.subrange(a as int, b as int).drop_last() =~= s@.subrange(a as int, b - 1));
        b -= 1;
    }
    s.substring_char(a, b)
}

/// `s` without its trailing copies of `c` (as `str::trim_end_matches` with a `char`).
pub open spec fn trim_end_char(s: Seq<char>, c: char) -> Seq<char>
    decreases s.len(),
{
    if s.len() > 0 && s.last() == c {
        trim_end_char(s.drop_last(), c)
    } else {
        s
    }
}

/// `s` without its leading copies of `c` (as `str::trim_start_matches` with a `char`).
pub open spec fn trim_start_char(s: Seq<char>, c: char) -> Seq<char>
    decreases s.len(),
{
    if s.len() > 0 && s[0] == c {
        trim_start_char(s.drop_first(), c)
    } else {
        s
    }
}

/// Removes all trailing copies of `c`.
pub fn trim_end_matches_char<'a>(s: &'a str, c: char) -> (r: &'a str)
    ensures
        r@ == trim_end_char(s@, c),
{
    let n = s.unicode_len();
    let mut b: usize = n;
    assert(s@.subrange(0, n as int) =~= s@);
    while b > 0 && s.get_char(b - 1) == c
        invariant
            n == s@.len(),
            b <= n,
            trim_end_char(s@, c) == trim_end_char(s@.subrange(0, b as int), c),
        decreases b,
    {
        assert(s@.subrange(0, b as int).drop_last() =~= s@.subrange(0, b - 1));
        b -= 1;
    }
    s.substring_char(0, b)
}

/// Removes all leading copies of `c`.
pub fn trim_start_matches_char<'a>(s: &'a str, c: char) -> (r: &'a str)
    ensures
        r@ == trim_start_char(s@, c),
{
    let n = s.unicode_len();
    let mut a: usize = 0;
    assert(s@.subrange(0, n as int) =~= s@);
    while a < n && s.get_char(a) == c
        invariant
            n == s@.len(),
            a <= n,
            trim_start_char(s@, c) == trim_start_char(s@.subrange(a as int, n as int), c),
        decreases n - a,
    {
        assert(s@.subrange(a as int, n as int).drop_first() =~= s@.subrange(a + 1, n as int));
        a += 1;
    }
    s.substring_char(a, n)
}

/// No character of `s` is white space.
pub open spec fn no_ws(s: Seq<char>) -> bool {
    forall|i: int| 0 <= i < s.len() ==> !is_ws(#[trigger] s[i])
}

/// Splits `s` around its first white-space character
/// (as `str::split_once(char::is_whitespace)`).
pub fn split_once_ws<'a>(s: &'a str) -> (r: Option<(&'a str, &'a str)>)
    ensures
        match r {
            Some((head, tail)) => exists|k: int|
                0 <= k < s@.len() && is_ws(s@[k]) && head@ == s@.subrange(0, k) && tail@
                    == s@.subrange(k + 1, s@.len() as int) && no_ws(head@),
            None => no_ws(s@),
        },
{
    let n = s.unicode_len();
    let mut k: usize = 0;
    while k < n
        invariant
            n == s@.len(),
            k <= n,
            no_ws(s@.subrange(0, k as int)),
        decreases n - k,
    {
        if is_whitespace(s.get_char(k)) {
            let head = s.substring_char(0, k);
            let tail = s.substring_char(k + 1, n);
            return Some((head, tail));
        }
        assert forall|i: int| 0 <= i < k + 1 implies !is_ws(#[trigger] s@.subrange(0, k + 1)[i]) by {
            if i < k {
                assert(s@.subrange(0, k + 1)[i] == s@.subrange(0, k as int)[i]);
            }
        }
        k += 1;
    }
    assert(s@.subrange(0, n as int) =~= s@);
    None
}

/// `s` split at its first white-space character (which is dropped);
/// all of `s` and nothing when it has none.
pub open spec fn split_first_ws(s: Seq<char>) -> (Seq<char>, Seq<char>)
    decreases s.len(),
{
    if s.len() == 0 {
        (seq![], seq![])
    } else if is_ws(s[0]) {
        (seq![], s.drop_first())
    } else {
        let (h, t) = split_first_ws(s.drop_first());
        (seq![s[0]] + h, t)
    }
}

/// Splitting at the first white-space character `k` (or at the end, when
/// `k` is the length) is what `split_first_ws` describes.
pub proof fn lemma_split_first_ws(s: Seq<char>, k: int)
    requires
        0 <= k <= s.len(),
        no_ws(s.subrange(0, k)),
        k < s.len() ==> is_ws(s[k]),
    ensures
        split_first_ws(s) == (if k < s.len() {
            (s.subrange(0, k), s.subrange(k + 1, s.len() as int))
        } else {
            (s, seq![])
        }),
    decreases k,
{
    if k == 0 {
        if s.len() > 0 {
            assert(s.drop_first() =~= s.subrange(1, s.len() as int));
        }
        assert(s.subrange(0, 0) =~= seq![]);
    } else {
        let t = s.drop_first();
        assert(!is_ws(s.subrange(0, k)[0]));
        assert forall|i: int| 0 <= i < k - 1 implies !is_ws(#[trigger] t.subrange(0, k - 1)[i]) by {
            assert(t.subrange(0, k - 1)[i] == s.subrange(0, k)[i + 1]);
        }
        lemma_split_first_ws(t, k - 1);
        if k < s.len() {
            assert(seq![s[0]] + t.subrange(0, k - 1) =~= s.subrange(0, k));
            assert(t.subrange(k, t.len() as int) =~= s.subrange(k + 1, s.len() as int));
        } else {
            assert(seq![s[0]] + t =~= s);
        }
    }
}

/// The lower-case mapping of a string, as `str::to_lowercase` computes it
/// (Unicode full case mapping, with the final-sigma rule).
pub uninterp spec fn lowercase(s: Seq<char>) -> Seq<char>;

/// Calls `str::to_lowercase`; its result depends on the characters of `s` alone.
#[verifier::external_body]
pub(crate) fn to_lowercase(s: &str) -> (r: String)
    ensures
        r@ == lowercase(s@),
{
    s.to_lowercase()
}

/// The ASCII digit for `d < 10`.
pub open spec fn digit_char(d: nat) -> char {
    ((48 + d) as u32) as char
}

/// The decimal rendering of `n`, without leading zeros.
pub open spec fn decimal(n: nat) -> Seq<char>
    decreases n,
{
    if n < 10 {
        seq![digit_char(n)]
    } else {
        decimal(n / 10).push(digit_char(n % 10))
    }
}

/// The decimal rendering of a signed integer, with a leading `-` when negative.
pub open spec fn signed_decimal(i: int) -> Seq<char> {
    if i < 0 {
        seq!['-'] + decimal((-i) as nat)
    } else {
        decimal(i as nat)
    }
}

fn digit_str(d: u64) -> (r: &'static str)
    requires
        d < 10,
    ensures
        r@ == seq![digit_char(d as nat)],
{
    proof {
        reveal_strlit("0");
        reveal_strlit("1");
        reveal_strlit("2");
        reveal_strlit("3");
        reveal_strlit("4");
        reveal_strlit("5");
        reveal_strlit("6");
        reveal_strlit("7");
        reveal_strlit("8");
        reveal_strlit("9");
    }
    let r = match d {
        0 => "0",
        1 => "1",
        2 => "2",
        3 => "3",
        4 => "4",
        5 => "5",
        6 => "6",
        7 => "7",
        8 => "8",
        _ => "9",
    };
    assert(r@ =~= seq![digit_char(d as nat)]);
    r
}

/// Renders `n` in decimal (as `u64::to_string`).
pub fn u64_to_decimal(n: u64) -> (r: String)
    ensures
        r@ == decimal(n as nat),
    decreases n,
{
    if n < 10 {
        String::from_str(digit_str(n))
    } else {
        let mut r = u64_to_decimal(n / 10);
        r.append(digit_str(n % 10));
        r
    }
}

/// Renders `i` in decimal (as `i64::to_string`).
pub fn i64_to_decimal(i: i64) -> (r: String)
    ensures
        r@ == signed_decimal(i as int),
{
    if i < 0 {
        let mut r = String::from_str("-");
        proof {
            reveal_strlit("-");
        }
        let magnitude: u64 = (-(i + 1)) as u64 + 1;
        let digits = u64_to_decimal(magnitude);
        r.append(digits.as_str());
        r
    } else {
        u64_to_decimal(i as u64)
    }
}

/// Joining puts the separator exactly between consecutive parts: joining
/// two non-empty runs of parts gives the first joined, the separator, and
/// the second joined; one part is itself; no parts give nothing.
pub proof fn join_separates_consecutive_parts(
    first: Seq<Seq<char>>,
    second: Seq<Seq<char>>,
    part: Seq<char>,
    sep: Seq<char>,
)
    ensures
        first.len() > 0 && second.len() > 0 ==> join(first + second, sep) == join(first, sep) + sep
            + join(second, sep),
        join(seq![part], sep) == part,
        join(Seq::<Seq<char>>::empty(), sep) == Seq::<char>::empty(),
    decreases second.len(),
{
    if first.len() > 0 && second.len() > 0 {
        assert((first + second).drop_last() =~= first + second.drop_last());
        assert((first + second).last() == second.last());
        if second.len() == 1 {
            assert(second.drop_last() =~= Seq::<Seq<char>>::empty());
            assert(first + second.drop_last() =~= first);
            assert(join(second, sep) == second[0]);
        } else {
            join_separates_consecutive_parts(first, second.drop_last(), part, sep);
            assert(join(first, sep) + sep + join(second.drop_last(), sep) + sep + second.last()
                =~= join(first, sep) + sep + (join(second.drop_last(), sep) + sep + second.last()));
        }
    }
}

proof fn lemma_scan_no_ws(s: Seq<char>)
    requires
        no_ws(s),
    ensures
        scan_words(s) == (Seq::<Seq<char>>::empty(), s),
    decreases s.len(),
{
    if s.len() > 0 {
        let init = s.drop_last();
        assert forall|i: int| 0 <= i < init.len() implies !is_ws(#[trigger] init[i]) by {
            assert(init[i] == s[i]);
        }
        lemma_scan_no_ws(init);
        assert(!is_ws(s[s.len() - 1]));
        assert(init.push(s.last()) =~= s);
    }
}

proof fn lemma_scan_after_break(a: Seq<char>, b: Seq<char>)
    requires
        scan_words(a).1.len() == 0,
    ensures
        scan_words(a + b) == (scan_words(a).0 + scan_words(b).0, scan_words(b).1),
    decreases b.len(),
{
    if b.len() == 0 {
        assert(a + b =~= a);
        assert(scan_words(a).0 + Seq::<Seq<char>>::empty() =~= scan_words(a).0);
        assert(scan_words(a).1 =~= Seq::<char>::empty());
    } else {
        lemma_scan_after_break(a, b.drop_last());
        assert((a + b).drop_last() =~= a + b.drop_last());
        assert((a + b).last() == b.last());
        let (d, cur) = scan_words(b.drop_last());
        assert((scan_words(a).0 + d).push(cur) =~= scan_words(a).0 + d.push(cur));
    }
}

proof fn lemma_scan_words_shape(s: Seq<char>)
    ensures
        forall|i: int|
            0 <= i < scan_words(s).0.len() ==> (#[trigger] scan_words(s).0[i]).len() > 0 && no_ws(
                scan_words(s).0[i],
            ),
        no_ws(scan_words(s).1),
    decreases s.len(),
{
    if s.len() > 0 {
        lemma_scan_words_shape(s.drop_last());
        let (d, cur) = scan_words(s.drop_last());
        if !is_ws(s.last()) {
            assert forall|i: int| 0 <= i < cur.push(s.last()).len() implies !is_ws(
                #[trigger] cur.push(s.last())[i],
            ) by {
                if i < cur.len() {
                    assert(cur.push(s.last())[i] == cur[i]);
                }
            }
        } else if cur.len() > 0 {
            assert forall|i: int| 0 <= i < d.push(cur).len() implies (#[trigger] d.push(
                cur,
            )[i]).len() > 0 && no_ws(d.push(cur)[i]) by {
                if i < d.len() {
                    assert(d.push(cur)[i] == d[i]);
                }
            }
        }
    }
}

/// Splitting into words breaks at every white-space character and only
/// there: around a white-space character the words are those before it
/// followed by those after it; a non-empty run without white space is one
/// word; and every word is a non-empty run without white space.
pub proof fn words_split_at_white_space(a: Seq<char>, c: char, b: Seq<char>, w: Seq<char>)
    ensures
        is_ws(c) ==> words(a + seq![c] + b) == words(a) + words(b),
        w.len() > 0 && no_ws(w) ==> words(w) == seq![w],
        words(Seq::<char>::empty()) == Seq::<Seq<char>>::empty(),
        forall|i: int|
            0 <= i < words(a).len() ==> (#[trigger] words(a)[i]).len() > 0 && no_ws(words(a)[i]),
{
    assert(scan_words(Seq::<char>::empty()) == (Seq::<Seq<char>>::empty(), Seq::<char>::empty()));
    if w.len() > 0 && no_ws(w) {
        lemma_scan_no_ws(w);
        assert(Seq::<Seq<char>>::empty().push(w) =~= seq![w]);
    }
    if is_ws(c) {
        let ac = a + seq![c];
        assert(ac.drop_last() =~= a);
        assert(ac.last() == c);
        assert(scan_words(ac) == (words(a), Seq::<char>::empty()));
        lemma_scan_after_break(ac, b);
        let (db, cb) = scan_words(b);
        if cb.len() > 0 {
            assert((words(a) + db).push(cb) =~= words(a) + db.push(cb));
        }
    }
    lemma_scan_words_shape(a);
    let (d, cur) = scan_words(a);
    if cur.len() > 0 {
        assert forall|i: int| 0 <= i < d.push(cur).len() implies (#[trigger] d.push(cur)[i]).len()
            > 0 && no_ws(d.push(cur)[i]) by {
            if i < d.len() {
                assert(d.push(cur)[i] == d[i]);
            }
        }
    }
}

proof fn lemma_trim_end_char(s: Seq<char>, c: char)
    ensures
        trim_end_char(s, c).len() <= s.len(),
        s.subrange(0, trim_end_char(s, c).len() as int) == trim_end_char(s, c),
        forall|i: int| trim_end_char(s, c).len() <= i < s.len() ==> s[i] == c,
        trim_end_char(s, c).len() > 0 ==> !(trim_end_char(s, c).last() == c),
    decreases s.len(),
{
    if s.len() > 0 && s.last() == c {
        lemma_trim_end_char(s.drop_last(), c);
        let t = trim_end_char(s.drop_last(), c);
        assert(s.subrange(0, t.len() as int) =~= s.drop_last().subrange(0, t.len() as int));
        assert forall|i: int| t.len() <= i < s.len() implies s[i] == c by {
            if i < s.len() - 1 {
                assert(s[i] == s.drop_last()[i]);
            }
        }
    } else {
        assert(s.subrange(0, s.len() as int) =~= s);
    }
}

proof fn lemma_trim_start_char(s: Seq<char>, c: char)
    ensures
        trim_start_char(s, c).len() <= s.len(),
        s.subrange(s.len() - trim_start_char(s, c).len(), s.len() as int) == trim_start_char(s, c),
        forall|i: int| 0 <= i < s.len() - trim_start_char(s, c).len() ==> s[i] == c,
        trim_start_char(s, c).len() > 0 ==> !(trim_start_char(s, c)[0] == c),
    decreases s.len(),
{
    if s.len() > 0 && s[0] == c {
        lemma_trim_start_char(s.drop_first(), c);
        let t = trim_start_char(s.drop_first(), c);
        assert(s.subrange(s.len() - t.len(), s.len() as int) =~= s.drop_first().subrange(
            s.drop_first().len() - t.len(),
            s.drop_first().len() as int,
        ));
        assert forall|i: int| 0 <= i < s.len() - t.len() implies s[i] == c by {
            if i > 0 {
                assert(s[i] == s.drop_first()[i - 1]);
            }
        }
    } else {
        assert(s.subrange(0, s.len() as int) =~= s);
    }
}

proof fn lemma_trim_end(s: Seq<char>)
    ensures
        trim_end(s).len() <= s.len(),
        s.subrange(0, trim_end(s).len() as int) == trim_end(s),
        forall|i: int| trim_end(s).len() <= i < s.len() ==> is_ws(s[i]),
        trim_end(s).len() > 0 ==> !(is_ws(trim_end(s).last())),
    decreases s.len(),
{
    if s.len() > 0 && is_ws(s.last()) {
        lemma_trim_end(s.drop_last());
        let t = trim_end(s.drop_last());
        assert(s.subrange(0, t.len() as int) =~= s.drop_last().subrange(0, t.len() as int));
        assert forall|i: int| t.len() <= i < s.len() implies is_ws(s[i]) by {
            if i < s.len() - 1 {
                assert(s[i] == s.drop_last()[i]);
            }
        }
    } else {
        assert(s.subrange(0, s.len() as int) =~= s);
    }
}

proof fn lemma_trim_start(s: Seq<char>)
    ensures
        trim_start(s).len() <= s.len(),
        s.subrange(s.len() - trim_start(s).len(), s.len() as int) == trim_start(s),
        forall|i: int| 0 <= i < s.len() - trim_start(s).len() ==> is_ws(s[i]),
        trim_start(s).len() > 0 ==> !(is_ws(trim_start(s)[0])),
    decreases s.len(),
{
    if s.len() > 0 && is_ws(s[0]) {
        lemma_trim_start(s.drop_first());
        let t = trim_start(s.drop_first());
        assert(s.subrange(s.len() - t.len(), s.len() as int) =~= s.drop_first().subrange(
            s.drop_first().len() - t.len(),
            s.drop_first().len() as int,
        ));
        assert forall|i: int| 0 <= i < s.len() - t.len() implies is_ws(s[i]) by {
            if i > 0 {
                assert(s[i] == s.drop_first()[i - 1]);
            }
        }
    } else {
        assert(s.subrange(0, s.len() as int) =~= s);
    }
}

/// Trimming removes exactly the characters at the edge: what is left is a
/// run of the string, every character removed is one to trim, and the run
/// left neither begins (for leading trims) nor ends (for trailing trims)
/// with one. This holds for trimming copies of `c` and for trimming white
/// space alike.
pub proof fn trims_remove_exactly_the_edge_characters(s: Seq<char>, c: char)
    ensures
        s.subrange(0, trim_end_char(s, c).len() as int) == trim_end_char(s, c),
        forall|i: int| trim_end_char(s, c).len() <= i < s.len() ==> s[i] == c,
        trim_end_char(s, c).len() > 0 ==> trim_end_char(s, c).last() != c,
        s.subrange(s.len() - trim_start_char(s, c).len(), s.len() as int) == trim_start_char(s, c),
        forall|i: int| 0 <= i < s.len() - trim_start_char(s, c).len() ==> s[i] == c,
        trim_start_char(s, c).len() > 0 ==> trim_start_char(s, c)[0] != c,
        s.subrange(0, trim_end(s).len() as int) == trim_end(s),
        forall|i: int| trim_end(s).len() <= i < s.len() ==> is_ws(s[i]),
        trim_end(s).len() > 0 ==> !is_ws(trim_end(s).last()),
        s.subrange(s.len() - trim_start(s).len(), s.len() as int) == trim_start(s),
        forall|i: int| 0 <= i < s.len() - trim_start(s).len() ==> is_ws(s[i]),
        trim_start(s).len() > 0 ==> !is_ws(trim_start(s)[0]),
{
    lemma_trim_end_char(s, c);
    lemma_trim_start_char(s, c);
    lemma_trim_end(s);
    lemma_trim_start(s);
}

/// A decimal rendering is a non-empty run of the digits `0` to `9` with no
/// leading zero (save `0` itself), one digit longer for every further
/// power of ten, and different numbers render differently.
pub proof fn decimal_renders_each_number_distinctly(a: nat, b: nat)
    ensures
        decimal(a).len() > 0,
        forall|i: int| 0 <= i < decimal(a).len() ==> '0' <= #[trigger] decimal(a)[i] <= '9',
        a > 0 ==> decimal(a)[0] != '0',
        a >= 10 ==> decimal(a).len() == decimal(a / 10).len() + 1,
        decimal(a) == decimal(b) ==> a == b,
    decreases a + b,
{
    if a >= 10 {
        decimal_renders_each_number_distinctly(a / 10, b / 10);
        let p = decimal(a / 10);
        assert forall|i: int| 0 <= i < decimal(a).len() implies '0' <= #[trigger] decimal(a)[i]
            <= '9' by {
            if i < p.len() {
                assert(decimal(a)[i] == p[i]);
            }
        }
        assert(decimal(a)[0] == p[0]);
        if decimal(a) == decimal(b) {
            if b < 10 {
                assert(decimal(b).len() == 1);
                assert(decimal(a).len() >= 2);
                assert(false);
            } else {
                decimal_renders_each_number_distinctly(b / 10, a / 10);
                assert(decimal(a).drop_last() =~= p);
                assert(decimal(b).drop_last() =~= decimal(b / 10));
                assert(decimal(a).last() == decimal(b).last());
                assert(decimal(a).last() == digit_char(a % 10));
                assert(decimal(b).last() == digit_char(b % 10));
                assert(digit_char(a % 10) as u32 == 48 + a % 10);
                assert(digit_char(b % 10) as u32 == 48 + b % 10);
                assert(a / 10 == b / 10);
                assert(a % 10 == b % 10);
                assert(a == 10 * (a / 10) + a % 10);
                assert(b == 10 * (b / 10) + b % 10);
                assert(a == b);
            }
        }
    } else {
        if decimal(a) == decimal(b) && b >= 10 {
            decimal_renders_each_number_distinctly(b / 10, 0);
            assert(decimal(b) == decimal(b / 10).push(digit_char(b % 10)));
            assert(decimal(b).len() >= 2);
            assert(decimal(a).len() == 1);
            assert(false);
        }
        if decimal(a) == decimal(b) && b < 10 {
            assert(decimal(a)[0] == digit_char(a));
            assert(decimal(b)[0] == digit_char(b));
            assert(digit_char(a) as u32 == 48 + a);
            assert(digit_char(b) as u32 == 48 + b);
            assert(a == b);
        }
    }
}

} // verus!
