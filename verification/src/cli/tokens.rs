use vstd::prelude::*;
use vstd::string::*;

verus! {

/// The number of leading `-` characters of `s`.
pub open spec fn dash_prefix_len(s: Seq<char>) -> nat
    decreases s.len(),
{
    if s.len() > 0 && s[0] == '-' {
        1 + dash_prefix_len(s.drop_first())
    } else {
        0
    }
}

/// `s` with every leading `-` removed (`str::trim_start_matches('-')`).
pub open spec fn trim_dashes(s: Seq<char>) -> Seq<char> {
    s.skip(dash_prefix_len(s) as int)
}

/// The index of the first `c` in `s`, if any.
pub open spec fn first_index_of(s: Seq<char>, c: char) -> Option<nat>
    decreases s.len(),
{
    if s.len() == 0 {
        None
    } else if s[0] == c {
        Some(0)
    } else {
        match first_index_of(s.drop_first(), c) {
            Some(i) => Some(i + 1),
            None => None,
        }
    }
}

/// `str::split_once('=')`: the parts before and after the first `=`.
pub open spec fn split_once_eq(s: Seq<char>) -> Option<(Seq<char>, Seq<char>)> {
    match first_index_of(s, '=') {
        Some(e) => Some((s.take(e as int), s.skip(e + 1 as int))),
        None => None,
    }
}

/// An empty value counts as absent.
pub open spec fn nonempty(v: Seq<char>) -> Option<Seq<char>> {
    if v.len() == 0 {
        None
    } else {
        Some(v)
    }
}

/// What a `key=value` token sets for `key`: `Some(value)` (with an empty value read as
/// absent) when the token has an `=` and its dash-trimmed key is `key`, else `None`.
pub open spec fn key_value(token: Seq<char>, key: Seq<char>) -> Option<Option<Seq<char>>> {
    match split_once_eq(token) {
        Some((k, v)) => if trim_dashes(k) == key {
            Some(nonempty(v))
        } else {
            None
        },
        None => None,
    }
}

/// The value that the last token among `tokens[1..n]` setting `key` gives it; the first
/// token (the program name) is skipped.
pub open spec fn last_value(tokens: Seq<Seq<char>>, key: Seq<char>, n: int) -> Option<Seq<char>>
    decreases n,
{
    if n <= 1 {
        None
    } else {
        match key_value(tokens[n - 1], key) {
            Some(v) => v,
            None => last_value(tokens, key, n - 1),
        }
    }
}

/// Whether some token among `tokens[1..n]` is `word` once its leading dashes are removed.
pub open spec fn has_flag(tokens: Seq<Seq<char>>, word: Seq<char>, n: int) -> bool {
    exists|i: int| 1 <= i < n && #[trigger] trim_dashes(tokens[i]) == word
}

/// The character views of a slice of strings.
pub open spec fn token_views(inputs: Seq<String>) -> Seq<Seq<char>> {
    inputs.map_values(|s: String| s@)
}

pub open spec fn opt_view(o: Option<String>) -> Option<Seq<char>> {
    match o {
        Some(s) => Some(s@),
        None => None,
    }
}

proof fn lemma_dash_prefix_step(s: Seq<char>, i: int)
    requires
        0 <= i < s.len(),
        s[i] == '-',
    ensures
        dash_prefix_len(s.skip(i)) == 1 + dash_prefix_len(s.skip(i + 1)),
{
    assert(s.skip(i).drop_first() =~= s.skip(i + 1));
}

proof fn lemma_first_index_step(s: Seq<char>, i: int, c: char)
    requires
        0 <= i < s.len(),
        s[i] != c,
    ensures
        first_index_of(s.skip(i), c) == match first_index_of(s.skip(i + 1), c) {
            Some(j) => Some(j + 1),
            None => None::<nat>,
        },
{
    assert(s.skip(i).drop_first() =~= s.skip(i + 1));
}

/// The number of leading dashes of `s`.
pub fn leading_dashes(s: &str) -> (k: usize)
    ensures
        k == dash_prefix_len(s@),
        k <= s@.len(),
{
    let n = s.unicode_len();
    let mut i: usize = 0;
    assert(s@.skip(0) =~= s@);
    while i < n
        invariant
            n == s@.len(),
            i <= n,
            dash_prefix_len(s@) == i + dash_prefix_len(s@.skip(i as int)),
        ensures
            i <= n,
            dash_prefix_len(s@) == i + dash_prefix_len(s@.skip(i as int)),
            i == n || s@[i as int] != '-',
        decreases n - i,
    {
        if s.get_char(i) != '-' {
            break;
        }
        proof {
            lemma_dash_prefix_step(s@, i as int);
        }
        i = i + 1;
    }
    proof {
        if i == n {
            assert(s@.skip(i as int).len() == 0);
        } else {
            assert(s@.skip(i as int)[0] == s@[i as int]);
        }
    }
    i
}

/// The index of the first `=` in `s`.
pub fn first_eq_sign(s: &str) -> (r: Option<usize>)
    ensures
        r matches Some(e) ==> first_index_of(s@, '=') == Some(e as nat) && e < s@.len(),
        r is None ==> first_index_of(s@, '=') is None,
{
    let n = s.unicode_len();
    let mut i: usize = 0;
    assert(s@.skip(0) =~= s@);
    while i < n
        invariant
            n == s@.len(),
            i <= n,
            first_index_of(s@, '=') == match first_index_of(s@.skip(i as int), '=') {
                Some(j) => Some((j + i) as nat),
                None => None::<nat>,
            },
        decreases n - i,
    {
        if s.get_char(i) == '=' {
            assert(s@.skip(i as int)[0] == '=');
            return Some(i);
        }
        proof {
            lemma_first_index_step(s@, i as int, '=');
        }
        i = i + 1;
    }
    assert(s@.skip(i as int).len() == 0);
    None
}

/// Whether the characters `s[from..to]` spell `word`.
pub fn range_equals(s: &str, from: usize, to: usize, word: &str) -> (r: bool)
    requires
        from <= to <= s@.len(),
    ensures
        r == (s@.subrange(from as int, to as int) == word@),
{
    let n = word.unicode_len();
    if to - from != n {
        return false;
    }
    let mut i: usize = 0;
    while i < n
        invariant
            n == word@.len(),
            to - from == n,
            from <= to <= s@.len(),
            i <= n,
            forall|j: int| 0 <= j < i ==> s@[from + j] == word@[j],
        decreases n - i,
    {
        if s.get_char(from + i) != word.get_char(i) {
            assert(s@.subrange(from as int, to as int)[i as int] != word@[i as int]);
            return false;
        }
        i = i + 1;
    }
    assert(s@.subrange(from as int, to as int) =~= word@);
    true
}

/// Whether `token` is `word` once its leading dashes are removed.
pub fn is_flag(token: &str, word: &str) -> (r: bool)
    ensures
        r == (trim_dashes(token@) == word@),
{
    let k = leading_dashes(token);
    let n = token.unicode_len();
    assert(token@.skip(k as int) =~= token@.subrange(k as int, n as int));
    range_equals(token, k, n, word)
}

/// What the `key=value` token `token` sets for `key` (see `key_value`).
pub fn key_value_of(token: &str, key: &str) -> (r: Option<Option<String>>)
    ensures
        match r {
            Some(v) => key_value(token@, key@) == Some(opt_view(v)),
            None => key_value(token@, key@) is None,
        },
{
    let e = match first_eq_sign(token) {
        Some(e) => e,
        None => return None,
    };
    let n = token.unicode_len();
    let key_part = token.substring_char(0, e);
    let k = leading_dashes(key_part);
    let klen = key_part.unicode_len();
    assert(key_part@.skip(k as int) =~= key_part@.subrange(k as int, klen as int));
    if !range_equals(key_part, k, klen, key) {
        return None;
    }
    let value = token.substring_char(e + 1, n);
    assert(value@ =~= token@.skip(e + 1));
    if value.unicode_len() == 0 {
        Some(None)
    } else {
        Some(Some(value.to_owned()))
    }
}

} // verus!
