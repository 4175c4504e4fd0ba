use vstd::prelude::*;

verus! {

/// A path separator as both backup layouts write them: forward slash or
/// backslash.
pub open spec fn spec_is_sep(c: char) -> bool {
    c == '/' || c == '\\'
}

/// Console whitespace.
pub open spec fn spec_is_ws(c: char) -> bool {
    c == ' ' || c == '\t' || c == '\r' || c == '\n'
}

/// The ASCII lowercase image of a character; everything else is unchanged.
pub open spec fn spec_lower(c: char) -> char {
    if 'A' <= c && c <= 'Z' {
        ((c as u8) + 32) as char
    } else {
        c
    }
}

/// The last index of `s` whose character satisfies `pred`, or -1.
pub open spec fn spec_last_where(s: Seq<char>, pred: spec_fn(char) -> bool) -> int
    decreases s.len(),
{
    if s.len() == 0 {
        -1
    } else if pred(s.last()) {
        s.len() - 1
    } else {
        spec_last_where(s.drop_last(), pred)
    }
}

/// What the last matching index means: it is in range, it matches, and
/// nothing after it does; -1 means nothing matches at all.
pub proof fn lemma_last_where(s: Seq<char>, pred: spec_fn(char) -> bool)
    ensures
        -1 <= spec_last_where(s, pred) < s.len(),
        spec_last_where(s, pred) >= 0 ==> pred(s[spec_last_where(s, pred)]),
        forall|j: int| spec_last_where(s, pred) < j < s.len() ==> !pred(#[trigger] s[j]),
    decreases s.len(),
{
    if s.len() > 0 && !pred(s.last()) {
        lemma_last_where(s.drop_last(), pred);
        assert forall|j: int| spec_last_where(s, pred) < j < s.len() implies !pred(
            #[trigger] s[j],
        ) by {
            if j < s.len() - 1 {
                assert(s.drop_last()[j] == s[j]);
            }
        }
    }
}

/// A known position with nothing matching after it is the last matching
/// index.
pub proof fn lemma_last_where_unique(s: Seq<char>, pred: spec_fn(char) -> bool, k: int)
    requires
        0 <= k < s.len(),
        pred(s[k]),
        forall|j: int| k < j < s.len() ==> !pred(#[trigger] s[j]),
    ensures
        spec_last_where(s, pred) == k,
    decreases s.len(),
{
    if k < s.len() - 1 {
        lemma_last_where_unique(s.drop_last(), pred, k);
    }
}

/// A sequence in which nothing matches has no last matching index.
pub proof fn lemma_last_where_none(s: Seq<char>, pred: spec_fn(char) -> bool)
    requires
        forall|j: int| 0 <= j < s.len() ==> !pred(#[trigger] s[j]),
    ensures
        spec_last_where(s, pred) == -1,
    decreases s.len(),
{
    if s.len() > 0 {
        lemma_last_where_none(s.drop_last(), pred);
    }
}

/// The predicate for path separators, as one shared value.
pub open spec fn sep_pred() -> spec_fn(char) -> bool {
    |c: char| spec_is_sep(c)
}

/// The predicate for a backslash alone, as the recent-project lists write
/// their paths.
pub open spec fn backslash_pred() -> spec_fn(char) -> bool {
    |c: char| c == '\\'
}

/// The predicate for a dot, as one shared value.
pub open spec fn dot_pred() -> spec_fn(char) -> bool {
    |c: char| c == '.'
}

/// The predicate for an underscore, as one shared value.
pub open spec fn underscore_pred() -> spec_fn(char) -> bool {
    |c: char| c == '_'
}

/// The predicate for console whitespace, as one shared value.
pub open spec fn ws_pred() -> spec_fn(char) -> bool {
    |c: char| spec_is_ws(c)
}

/// The file-name of a path: what follows the last separator.
pub open spec fn spec_file_name(s: Seq<char>) -> Seq<char> {
    s.skip(spec_last_where(s, sep_pred()) + 1)
}

/// The parent of a path: what precedes the last separator, empty when
/// there is none.
pub open spec fn spec_parent(s: Seq<char>) -> Seq<char> {
    if spec_last_where(s, sep_pred()) >= 0 {
        s.take(spec_last_where(s, sep_pred()))
    } else {
        Seq::empty()
    }
}

/// A name without its extension: what precedes the last dot, unless the
/// dot leads the name; a dotless name is its own stem.
pub open spec fn spec_stem(name: Seq<char>) -> Seq<char> {
    if spec_last_where(name, dot_pred()) > 0 {
        name.take(spec_last_where(name, dot_pred()))
    } else {
        name
    }
}

/// Whether `s` ends with `suffix`.
pub open spec fn spec_ends_with(s: Seq<char>, suffix: Seq<char>) -> bool {
    s.len() >= suffix.len() && s.skip(s.len() - suffix.len()) == suffix
}

/// Whether `s` starts with `prefix`.
pub open spec fn spec_starts_with(s: Seq<char>, prefix: Seq<char>) -> bool {
    s.len() >= prefix.len() && s.take(prefix.len() as int) == prefix
}

/// Whether `pat` occurs in `s` at position `i` up to ASCII case.
pub open spec fn spec_matches_ci_at(s: Seq<char>, pat: Seq<char>, i: int) -> bool {
    &&& 0 <= i
    &&& i + pat.len() <= s.len()
    &&& forall|j: int|
        0 <= j < pat.len() ==> spec_lower(#[trigger] s[i + j]) == spec_lower(pat[j])
}

/// Whether `pat` occurs anywhere in `s` up to ASCII case.
pub open spec fn spec_contains_ci(s: Seq<char>, pat: Seq<char>) -> bool {
    exists|i: int| spec_matches_ci_at(s, pat, i)
}

/// Character-for-character comparison of an owned string with a borrowed
/// slice.
pub fn string_eq_str(a: &String, b: &str) -> (r: bool)
    ensures
        r == (a@ == b@),
{
    let owned: String = b.to_owned();
    a.eq(&owned)
}

/// The number of characters in `s`.
pub fn char_len(s: &str) -> (n: usize)
    ensures
        n == s@.len(),
{
    s.unicode_len()
}

/// The last index of `s` at which a path separator stands, if any.
pub fn last_sep_index(s: &str) -> (r: Option<usize>)
    ensures
        match r {
            Some(i) => i == spec_last_where(s@, sep_pred()) && i < s@.len(),
            None => spec_last_where(s@, sep_pred()) == -1,
        },
{
    let n = s.unicode_len();
    let mut i: usize = n;
    while i > 0
        invariant
            i <= n,
            n == s@.len(),
            forall|j: int| i <= j < s@.len() ==> !(sep_pred())(#[trigger] s@[j]),
        decreases i,
    {
        i = i - 1;
        let c = s.get_char(i);
        if c == '/' || c == '\\' {
            proof {
                lemma_last_where_unique(s@, sep_pred(), i as int);
            }
            return Some(i);
        }
    }
    proof {
        lemma_last_where_none(s@, sep_pred());
    }
    None
}

/// The last index of `s` at which a backslash stands, if any.
pub fn last_backslash_index(s: &str) -> (r: Option<usize>)
    ensures
        match r {
            Some(i) => i == spec_last_where(s@, backslash_pred()) && i < s@.len(),
            None => spec_last_where(s@, backslash_pred()) == -1,
        },
{
    let n = s.unicode_len();
    let mut i: usize = n;
    while i > 0
        invariant
            i <= n,
            n == s@.len(),
            forall|j: int| i <= j < s@.len() ==> !(backslash_pred())(#[trigger] s@[j]),
        decreases i,
    {
        i = i - 1;
        let c = s.get_char(i);
        if c == '\\' {
            proof {
                lemma_last_where_unique(s@, backslash_pred(), i as int);
            }
            return Some(i);
        }
    }
    proof {
        lemma_last_where_none(s@, backslash_pred());
    }
    None
}

/// The last index of `s` at which a dot stands, if any.
pub fn last_dot_index(s: &str) -> (r: Option<usize>)
    ensures
        match r {
            Some(i) => i == spec_last_where(s@, dot_pred()) && i < s@.len(),
            None => spec_last_where(s@, dot_pred()) == -1,
        },
{
    let n = s.unicode_len();
    let mut i: usize = n;
    while i > 0
        invariant
            i <= n,
            n == s@.len(),
            forall|j: int| i <= j < s@.len() ==> !(dot_pred())(#[trigger] s@[j]),
        decreases i,
    {
        i = i - 1;
        let c = s.get_char(i);
        if c == '.' {
            proof {
                lemma_last_where_unique(s@, dot_pred(), i as int);
            }
            return Some(i);
        }
    }
    proof {
        lemma_last_where_none(s@, dot_pred());
    }
    None
}

/// The last index of `s` at which an underscore stands, if any.
pub fn last_underscore_index(s: &str) -> (r: Option<usize>)
    ensures
        match r {
            Some(i) => i == spec_last_where(s@, underscore_pred()) && i < s@.len(),
            None => spec_last_where(s@, underscore_pred()) == -1,
        },
{
    let n = s.unicode_len();
    let mut i: usize = n;
    while i > 0
        invariant
            i <= n,
            n == s@.len(),
            forall|j: int| i <= j < s@.len() ==> !(underscore_pred())(#[trigger] s@[j]),
        decreases i,
    {
        i = i - 1;
        let c = s.get_char(i);
        if c == '_' {
            proof {
                lemma_last_where_unique(s@, underscore_pred(), i as int);
            }
            return Some(i);
        }
    }
    proof {
        lemma_last_where_none(s@, underscore_pred());
    }
    None
}

/// The characters of `s` from `from` up to `to`, as an owned string.
pub fn substring(s: &str, from: usize, to: usize) -> (r: String)
    requires
        from <= to <= s@.len(),
    ensures
        r@ == s@.subrange(from as int, to as int),
{
    s.substring_char(from, to).to_owned()
}

/// Whether `s` ends with `suffix`, character for character.
pub fn ends_with(s: &str, suffix: &str) -> (r: bool)
    ensures
        r == spec_ends_with(s@, suffix@),
{
    let n = s.unicode_len();
    let m = suffix.unicode_len();
    if n < m {
        return false;
    }
    let tail = s.substring_char(n - m, n).to_owned();
    let pat: String = suffix.to_owned();
    tail.eq(&pat)
}

/// Whether `s` starts with `prefix`, character for character.
pub fn starts_with(s: &str, prefix: &str) -> (r: bool)
    ensures
        r == spec_starts_with(s@, prefix@),
{
    let n = s.unicode_len();
    let m = prefix.unicode_len();
    if n < m {
        return false;
    }
    let head = s.substring_char(0, m).to_owned();
    let pat: String = prefix.to_owned();
    head.eq(&pat)
}

/// The ASCII-lowercase image of one character.
pub fn lower_char(c: char) -> (r: char)
    ensures
        r == spec_lower(c),
{
    if 'A' <= c && c <= 'Z' {
        (((c as u8) + 32) as char)
    } else {
        c
    }
}

/// Whether `pat` occurs anywhere in `s`, comparing ASCII case-blind.
pub fn contains_ci(s: &str, pat: &str) -> (r: bool)
    ensures
        r == spec_contains_ci(s@, pat@),
{
    let n = s.unicode_len();
    let m = pat.unicode_len();
    if m > n {
        proof {
            assert(forall|i: int| !spec_matches_ci_at(s@, pat@, i));
        }
        return false;
    }
    let mut i: usize = 0;
    while i <= n - m
        invariant
            m <= n,
            n == s@.len(),
            m == pat@.len(),
            i <= n - m + 1,
            forall|k: int| 0 <= k < i ==> !spec_matches_ci_at(s@, pat@, k),
        decreases n - m + 1 - i,
    {
        let mut j: usize = 0;
        let mut hit = true;
        while j < m
            invariant
                hit ==> forall|l: int|
                    0 <= l < j ==> spec_lower(#[trigger] s@[i + l]) == spec_lower(pat@[l]),
                !hit ==> !spec_matches_ci_at(s@, pat@, i as int),
                i + m <= n,
                j <= m,
                n == s@.len(),
                m == pat@.len(),
            decreases m - j,
        {
            let a = lower_char(s.get_char(i + j));
            let b = lower_char(pat.get_char(j));
            if a != b {
                proof {
                    assert(!spec_matches_ci_at(s@, pat@, i as int));
                }
                hit = false;
                j = m;
            } else {
                j = j + 1;
            }
        }
        if hit {
            proof {
                assert(spec_matches_ci_at(s@, pat@, i as int));
            }
            return true;
        }
        i = i + 1;
    }
    proof {
        assert forall|k: int| !spec_matches_ci_at(s@, pat@, k) by {
            if 0 <= k && k + pat@.len() <= s@.len() {
                assert(k < i);
            }
        }
    }
    false
}

/// The predicate for non-whitespace, as one shared value.
pub open spec fn non_ws_pred() -> spec_fn(char) -> bool {
    |c: char| !spec_is_ws(c)
}

/// Whether `pat` occurs in `s` at position `i`, character for character.
pub open spec fn spec_matches_at(s: Seq<char>, pat: Seq<char>, i: int) -> bool {
    &&& 0 <= i
    &&& i + pat.len() <= s.len()
    &&& forall|j: int| 0 <= j < pat.len() ==> #[trigger] s[i + j] == pat[j]
}

/// Whether `pat` occurs anywhere in `s`, character for character.
pub open spec fn spec_contains(s: Seq<char>, pat: Seq<char>) -> bool {
    exists|i: int| spec_matches_at(s, pat, i)
}

/// Extending a prefix by one element extends its filtered image by that
/// element exactly when the predicate keeps it.
pub proof fn lemma_filter_take_step<A>(s: Seq<A>, pred: spec_fn(A) -> bool, t: int)
    requires
        0 <= t < s.len(),
    ensures
        pred(s[t]) ==> s.take(t + 1).filter(pred) == s.take(t).filter(pred).push(s[t]),
        !pred(s[t]) ==> s.take(t + 1).filter(pred) == s.take(t).filter(pred),
{
    reveal(Seq::filter);
    assert(s.take(t + 1).drop_last() =~= s.take(t));
    assert(s.take(t + 1).last() == s[t]);
}

/// The last index of `s` at which a non-whitespace character stands, if
/// any.
pub fn last_non_ws_index(s: &str) -> (r: Option<usize>)
    ensures
        match r {
            Some(i) => i == spec_last_where(s@, non_ws_pred()) && i < s@.len(),
            None => spec_last_where(s@, non_ws_pred()) == -1,
        },
{
    let n = s.unicode_len();
    let mut i: usize = n;
    while i > 0
        invariant
            i <= n,
            n == s@.len(),
            forall|j: int| i <= j < s@.len() ==> !(non_ws_pred())(#[trigger] s@[j]),
        decreases i,
    {
        i = i - 1;
        let c = s.get_char(i);
        if !(c == ' ' || c == '\t' || c == '\r' || c == '\n') {
            proof {
                lemma_last_where_unique(s@, non_ws_pred(), i as int);
            }
            return Some(i);
        }
    }
    proof {
        lemma_last_where_none(s@, non_ws_pred());
    }
    None
}

/// Whether `pat` occurs anywhere in `s`, comparing character for
/// character.
pub fn contains(s: &str, pat: &str) -> (r: bool)
    ensures
        r == spec_contains(s@, pat@),
{
    let n = s.unicode_len();
    let m = pat.unicode_len();
    if m > n {
        proof {
            assert(forall|i: int| !spec_matches_at(s@, pat@, i));
        }
        return false;
    }
    let mut i: usize = 0;
    while i <= n - m
        invariant
            m <= n,
            n == s@.len(),
            m == pat@.len(),
            i <= n - m + 1,
            forall|k: int| 0 <= k < i ==> !spec_matches_at(s@, pat@, k),
        decreases n - m + 1 - i,
    {
        let mut j: usize = 0;
        let mut hit = true;
        while j < m
            invariant
                hit ==> forall|l: int| 0 <= l < j ==> #[trigger] s@[i + l] == pat@[l],
                !hit ==> !spec_matches_at(s@, pat@, i as int),
                i + m <= n,
                j <= m,
                n == s@.len(),
                m == pat@.len(),
            decreases m - j,
        {
            let a = s.get_char(i + j);
            let b = pat.get_char(j);
            if a != b {
                proof {
                    assert(!spec_matches_at(s@, pat@, i as int));
                }
                hit = false;
                j = m;
            } else {
                j = j + 1;
            }
        }
        if hit {
            proof {
                assert(spec_matches_at(s@, pat@, i as int));
            }
            return true;
        }
        i = i + 1;
    }
    proof {
        assert forall|k: int| !spec_matches_at(s@, pat@, k) by {
            if 0 <= k && k + pat@.len() <= s@.len() {
                assert(k < i);
            }
        }
    }
    false
}

/// The last index before `end` at which console whitespace stands, if
/// any.
pub fn last_ws_index_before(s: &str, end: usize) -> (r: Option<usize>)
    requires
        end <= s@.len(),
    ensures
        match r {
            Some(i) => i == spec_last_where(s@.take(end as int), ws_pred()) && i < end,
            None => spec_last_where(s@.take(end as int), ws_pred()) == -1,
        },
{
    let ghost t = s@.take(end as int);
    let mut i: usize = end;
    while i > 0
        invariant
            i <= end,
            end <= s@.len(),
            t == s@.take(end as int),
            forall|j: int| i <= j < t.len() ==> !(ws_pred())(#[trigger] t[j]),
        decreases i,
    {
        i = i - 1;
        let c = s.get_char(i);
        proof {
            assert(t[i as int] == s@[i as int]);
        }
        if c == ' ' || c == '\t' || c == '\r' || c == '\n' {
            proof {
                lemma_last_where_unique(t, ws_pred(), i as int);
            }
            return Some(i);
        }
    }
    proof {
        lemma_last_where_none(t, ws_pred());
    }
    None
}

/// The test for one exact character, as one shared value.
pub open spec fn char_pred(c: char) -> spec_fn(char) -> bool {
    |x: char| x == c
}

/// The test for any other character, as one shared value.
pub open spec fn not_char_pred(c: char) -> spec_fn(char) -> bool {
    |x: char| x != c
}

/// The first index at or after `i` whose character satisfies `pred`, or
/// -1.
pub open spec fn spec_first_where_from(s: Seq<char>, pred: spec_fn(char) -> bool, i: int) -> int
    decreases s.len() - i,
{
    if i < 0 || i >= s.len() {
        -1
    } else if pred(s[i]) {
        i
    } else {
        spec_first_where_from(s, pred, i + 1)
    }
}

/// What the first matching index means: it is at or after `i`, it
/// matches, and nothing between matches; -1 means nothing from `i` on
/// matches.
pub proof fn lemma_first_where_from(s: Seq<char>, pred: spec_fn(char) -> bool, i: int)
    requires
        0 <= i <= s.len(),
    ensures
        spec_first_where_from(s, pred, i) == -1 ==> forall|j: int|
            i <= j < s.len() ==> !pred(#[trigger] s[j]),
        spec_first_where_from(s, pred, i) != -1 ==> {
            let f = spec_first_where_from(s, pred, i);
            &&& i <= f < s.len()
            &&& pred(s[f])
            &&& forall|j: int| i <= j < f ==> !pred(#[trigger] s[j])
        },
    decreases s.len() - i,
{
    if i < s.len() && !pred(s[i]) {
        lemma_first_where_from(s, pred, i + 1);
    }
}

/// A gap without matches does not move the first matching index.
pub proof fn lemma_first_where_gap(s: Seq<char>, pred: spec_fn(char) -> bool, i: int, j: int)
    requires
        0 <= i <= j <= s.len(),
        forall|k: int| i <= k < j ==> !pred(#[trigger] s[k]),
    ensures
        spec_first_where_from(s, pred, i) == spec_first_where_from(s, pred, j),
    decreases j - i,
{
    if i < j {
        lemma_first_where_gap(s, pred, i + 1, j);
    }
}

/// The first index at or after `from` holding exactly `c`, if any.
pub fn first_char_index_from(s: &str, from: usize, c: char) -> (r: Option<usize>)
    requires
        from <= s@.len(),
    ensures
        match r {
            Some(i) => i == spec_first_where_from(s@, char_pred(c), from as int) && from <= i
                < s@.len(),
            None => spec_first_where_from(s@, char_pred(c), from as int) == -1,
        },
{
    let n = s.unicode_len();
    let mut i: usize = from;
    while i < n
        invariant
            from <= i <= n,
            n == s@.len(),
            forall|j: int| from <= j < i ==> !(char_pred(c))(#[trigger] s@[j]),
        decreases n - i,
    {
        if s.get_char(i) == c {
            proof {
                lemma_first_where_gap(s@, char_pred(c), from as int, i as int);
            }
            return Some(i);
        }
        i = i + 1;
    }
    proof {
        lemma_first_where_gap(s@, char_pred(c), from as int, n as int);
    }
    None
}

/// The first index holding a non-whitespace character, if any.
pub fn first_non_ws_index(s: &str) -> (r: Option<usize>)
    ensures
        match r {
            Some(i) => i == spec_first_where_from(s@, non_ws_pred(), 0) && i < s@.len(),
            None => spec_first_where_from(s@, non_ws_pred(), 0) == -1,
        },
{
    let n = s.unicode_len();
    let mut i: usize = 0;
    while i < n
        invariant
            i <= n,
            n == s@.len(),
            forall|j: int| 0 <= j < i ==> !(non_ws_pred())(#[trigger] s@[j]),
        decreases n - i,
    {
        let c = s.get_char(i);
        if !(c == ' ' || c == '\t' || c == '\r' || c == '\n') {
            proof {
                lemma_first_where_gap(s@, non_ws_pred(), 0, i as int);
            }
            return Some(i);
        }
        i = i + 1;
    }
    proof {
        lemma_first_where_gap(s@, non_ws_pred(), 0, n as int);
    }
    None
}

/// The first index holding a character other than `c`, if any.
pub fn first_not_char_index(s: &str, c: char) -> (r: Option<usize>)
    ensures
        match r {
            Some(i) => i == spec_first_where_from(s@, not_char_pred(c), 0) && i < s@.len(),
            None => spec_first_where_from(s@, not_char_pred(c), 0) == -1,
        },
{
    let n = s.unicode_len();
    let mut i: usize = 0;
    while i < n
        invariant
            i <= n,
            n == s@.len(),
            forall|j: int| 0 <= j < i ==> !(not_char_pred(c))(#[trigger] s@[j]),
        decreases n - i,
    {
        if s.get_char(i) != c {
            proof {
                lemma_first_where_gap(s@, not_char_pred(c), 0, i as int);
            }
            return Some(i);
        }
        i = i + 1;
    }
    proof {
        lemma_first_where_gap(s@, not_char_pred(c), 0, n as int);
    }
    None
}

/// The last index holding a character other than `c`, if any.
pub fn last_not_char_index(s: &str, c: char) -> (r: Option<usize>)
    ensures
        match r {
            Some(i) => i == spec_last_where(s@, not_char_pred(c)) && i < s@.len(),
            None => spec_last_where(s@, not_char_pred(c)) == -1,
        },
{
    let n = s.unicode_len();
    let mut i: usize = n;
    while i > 0
        invariant
            i <= n,
            n == s@.len(),
            forall|j: int| i <= j < s@.len() ==> !(not_char_pred(c))(#[trigger] s@[j]),
        decreases i,
    {
        i = i - 1;
        if s.get_char(i) != c {
            proof {
                lemma_last_where_unique(s@, not_char_pred(c), i as int);
            }
            return Some(i);
        }
    }
    proof {
        lemma_last_where_none(s@, not_char_pred(c));
    }
    None
}

/// `s` without leading or trailing whitespace; empty when `s` is all
/// whitespace.
pub open spec fn spec_trim(s: Seq<char>) -> Seq<char> {
    let a = spec_first_where_from(s, non_ws_pred(), 0);
    if a == -1 {
        Seq::empty()
    } else {
        s.subrange(a, spec_last_where(s, non_ws_pred()) + 1)
    }
}

/// `s` without leading or trailing whitespace.
pub fn trim(s: &str) -> (r: String)
    ensures
        r@ == spec_trim(s@),
{
    let n = s.unicode_len();
    match first_non_ws_index(s) {
        Some(a) => {
            let b = match last_non_ws_index(s) {
                Some(b) => b,
                None => {
                    proof {
                        lemma_first_where_from(s@, non_ws_pred(), 0);
                        lemma_last_where(s@, non_ws_pred());
                        assert(false);
                    }
                    a
                },
            };
            proof {
                lemma_first_where_from(s@, non_ws_pred(), 0);
                lemma_last_where(s@, non_ws_pred());
                assert(a as int <= spec_last_where(s@, non_ws_pred()));
            }
            substring(s, a, b + 1)
        },
        None => {
            proof {
                assert(Seq::<char>::empty() =~= ""@) by {
                    reveal_strlit("");
                }
            }
            String::new()
        },
    }
}

/// `s` without its leading run of `c`; empty when `s` is all `c`.
pub open spec fn spec_strip_leading(s: Seq<char>, c: char) -> Seq<char> {
    let a = spec_first_where_from(s, not_char_pred(c), 0);
    if a == -1 {
        Seq::empty()
    } else {
        s.skip(a)
    }
}

/// `s` without its trailing run of `c`; empty when `s` is all `c`.
pub open spec fn spec_strip_trailing(s: Seq<char>, c: char) -> Seq<char> {
    let b = spec_last_where(s, not_char_pred(c));
    if b == -1 {
        Seq::empty()
    } else {
        s.take(b + 1)
    }
}

/// `s` without `prefix` at its front, when it is there; otherwise `s`
/// itself.
pub open spec fn spec_strip_prefix(s: Seq<char>, prefix: Seq<char>) -> Seq<char> {
    if spec_starts_with(s, prefix) {
        s.skip(prefix.len() as int)
    } else {
        s
    }
}

/// `s` without its leading run of `c`.
pub fn strip_leading(s: &str, c: char) -> (r: String)
    ensures
        r@ == spec_strip_leading(s@, c),
{
    let n = s.unicode_len();
    match first_not_char_index(s, c) {
        Some(a) => {
            let r = substring(s, a, n);
            proof {
                assert(r@ =~= spec_strip_leading(s@, c));
            }
            r
        },
        None => {
            proof {
                assert(Seq::<char>::empty() =~= ""@) by {
                    reveal_strlit("");
                }
            }
            String::new()
        },
    }
}

/// `s` without its trailing run of `c`.
pub fn strip_trailing(s: &str, c: char) -> (r: String)
    ensures
        r@ == spec_strip_trailing(s@, c),
{
    let n = s.unicode_len();
    match last_not_char_index(s, c) {
        Some(b) => {
            let r = substring(s, 0, b + 1);
            proof {
                assert(r@ =~= spec_strip_trailing(s@, c));
            }
            r
        },
        None => {
            proof {
                assert(Seq::<char>::empty() =~= ""@) by {
                    reveal_strlit("");
                }
            }
            String::new()
        },
    }
}

/// `s` without `prefix` at its front, when it is there.
pub fn strip_prefix_str(s: &str, prefix: &str) -> (r: String)
    ensures
        r@ == spec_strip_prefix(s@, prefix@),
{
    let n = s.unicode_len();
    if starts_with(s, prefix) {
        let m = prefix.unicode_len();
        let r = substring(s, m, n);
        proof {
            assert(r@ =~= spec_strip_prefix(s@, prefix@));
        }
        r
    } else {
        s.to_owned()
    }
}

} // verus!
