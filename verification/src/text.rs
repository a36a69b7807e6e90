//! Text primitives on which the rest of the library is built: character
//! sequences, lexicographic order, truncation, trimming, splitting and
//! decimal formatting, each stated over `Seq<char>`.
use vstd::prelude::*;

verus! {

// ─── Conversions between strings and character vectors ──────────────────────

/// The characters of `s`, in order.
pub fn chars_of(s: &str) -> (v: Vec<char>)
    ensures
        v@ == s@,
{
    let mut v: Vec<char> = Vec::new();
    for c in it: s.chars()
        invariant
            v@ == it.seq().take(it.index() as int),
            it.seq() == s@,
    {
        v.push(c);
    }
    v
}

/// A string holding the characters of `v`, in order.
pub(crate) fn string_from_chars(v: &[char]) -> (s: String)
    ensures
        s@ == v@,
{
    let mut s = String::new();
    let n = v.len();
    for i in 0..n
        invariant
            n == v@.len(),
            s@ == v@.take(i as int),
    {
        push_char(&mut s, v[i]);
        assert(s@ =~= v@.take(i + 1));
    }
    assert(v@.take(n as int) =~= v@);
    s
}

/// Appends `c` to `s` (std's `String::push`); the contract claims that the
/// character is added at the end and nothing else changes.
#[verifier::external_body]
pub(crate) fn push_char(s: &mut String, c: char)
    ensures
        final(s)@ == old(s)@.push(c),
{
    s.push(c)
}

/// Removes the last character of `s` (std's `String::pop`); the contract
/// claims that it is returned and removed, and that an empty string stays as it is.
#[verifier::external_body]
pub(crate) fn pop_char(s: &mut String) -> (r: Option<char>)
    ensures
        old(s)@.len() == 0 ==> r is None && final(s)@ == old(s)@,
        old(s)@.len() > 0 ==> r == Some(old(s)@.last()) && final(s)@ == old(s)@.drop_last(),
{
    s.pop()
}

/// The string holding `a` followed by `b`.
pub fn concat(a: &str, b: &str) -> (r: String)
    ensures
        r@ == a@ + b@,
{
    let mut r = String::new();
    r.append(a);
    r.append(b);
    r
}

/// The string holding `v[lo..hi]`.
pub fn string_of_range(v: &Vec<char>, lo: usize, hi: usize) -> (r: String)
    requires
        lo <= hi <= v.len(),
    ensures
        r@ == v@.subrange(lo as int, hi as int),
{
    let mut r = String::new();
    let mut i = lo;
    while i < hi
        invariant
            lo <= i <= hi <= v.len(),
            r@ == v@.subrange(lo as int, i as int),
        decreases hi - i,
    {
        push_char(&mut r, v[i]);
        assert(r@ =~= v@.subrange(lo as int, i + 1));
        i = i + 1;
    }
    r
}

/// `a`, a slash, then `b`: the way the program composes paths and keys.
pub fn join_slash(a: &str, b: &str) -> (r: String)
    ensures
        r@ == a@ + seq!['/'] + b@,
{
    let mut r = String::new();
    r.append(a);
    push_char(&mut r, '/');
    r.append(b);
    r
}

/// The value of an optional string.
pub open spec fn opt_view(o: Option<String>) -> Option<Seq<char>> {
    match o {
        Some(s) => Some(s@),
        None => None,
    }
}

/// Joins `parts` with `sep` between consecutive parts.
pub open spec fn join_seq(parts: Seq<Seq<char>>, sep: Seq<char>) -> Seq<char>
    decreases parts.len(),
{
    if parts.len() == 0 {
        seq![]
    } else if parts.len() == 1 {
        parts[0]
    } else {
        join_seq(parts.drop_last(), sep) + sep + parts.last()
    }
}

/// The views of a vector of strings.
pub open spec fn views(v: Seq<String>) -> Seq<Seq<char>> {
    v.map_values(|s: String| s@)
}

/// Joins the strings of `parts` with `sep` (std's `[String]::join`).
pub fn join(parts: &Vec<String>, sep: &str) -> (r: String)
    ensures
        r@ == join_seq(views(parts@), sep@),
{
    let mut r = String::new();
    let n = parts.len();
    for i in 0..n
        invariant
            n == parts.len(),
            r@ == join_seq(views(parts@).take(i as int), sep@),
    {
        assert(views(parts@).take(i + 1).drop_last() =~= views(parts@).take(i as int));
        if i > 0 {
            r.append(sep);
        }
        r.append(parts[i].as_str());
    }
    assert(views(parts@).take(n as int) =~= views(parts@));
    r
}

// ─── Prefixes and suffixes ───────────────────────────────────────────────────

/// Whether `p` is a prefix of `s`.
pub fn has_prefix(s: &Vec<char>, p: &Vec<char>) -> (r: bool)
    ensures
        r == p@.is_prefix_of(s@),
{
    if p.len() > s.len() {
        return false;
    }
    let n = p.len();
    for i in 0..n
        invariant
            n == p.len(),
            n <= s.len(),
            forall|j: int| 0 <= j < i ==> p@[j] == s@[j],
    {
        if p[i] != s[i] {
            return false;
        }
    }
    assert(p@ =~= s@.subrange(0, p@.len() as int));
    true
}

/// Whether the string `s` starts with the string `p` (std's `str::starts_with`).
pub fn str_starts_with(s: &str, p: &str) -> (r: bool)
    ensures
        r == p@.is_prefix_of(s@),
{
    has_prefix(&chars_of(s), &chars_of(p))
}

/// Whether `s` ends with the character `c`.
pub fn ends_with_char(s: &str, c: char) -> (r: bool)
    ensures
        r == (s@.len() > 0 && s@.last() == c),
{
    let v = chars_of(s);
    v.len() > 0 && v[v.len() - 1] == c
}

/// Whether `s` starts with the character `c`.
pub fn starts_with_char(s: &str, c: char) -> (r: bool)
    ensures
        r == (s@.len() > 0 && s@[0] == c),
{
    let v = chars_of(s);
    v.len() > 0 && v[0] == c
}

/// `s` without all of its trailing `c` characters (std's `trim_end_matches` with a char).
pub open spec fn strip_trailing(s: Seq<char>, c: char) -> Seq<char>
    decreases s.len(),
{
    if s.len() > 0 && s.last() == c {
        strip_trailing(s.drop_last(), c)
    } else {
        s
    }
}

/// Removes every trailing `c` from `s`.
pub fn trim_end_char(s: &str, c: char) -> (r: String)
    ensures
        r@ == strip_trailing(s@, c),
{
    let v = chars_of(s);
    let mut n = v.len();
    assert(v@.take(n as int) =~= v@);
    while n > 0 && v[n - 1] == c
        invariant
            n <= v.len(),
            strip_trailing(v@.take(n as int), c) == strip_trailing(s@, c),
            v@ == s@,
        decreases n,
    {
        assert(v@.take(n as int).drop_last() =~= v@.take(n - 1));
        n = n - 1;
    }
    string_of_range(&v, 0, n)
}

// ─── Lexicographic order ─────────────────────────────────────────────────────

/// `a` comes no later than `b` in the order of `String`'s `Ord`: character
/// by character, by code point, a proper prefix first.
pub open spec fn lex_le(a: Seq<char>, b: Seq<char>) -> bool
    decreases a.len(),
{
    if a.len() == 0 {
        true
    } else if b.len() == 0 {
        false
    } else if a[0] != b[0] {
        (a[0] as int) < (b[0] as int)
    } else {
        lex_le(a.drop_first(), b.drop_first())
    }
}

/// Any two sequences are ordered one way or the other.
pub proof fn lemma_lex_total(a: Seq<char>, b: Seq<char>)
    ensures
        lex_le(a, b) || lex_le(b, a),
    decreases a.len(),
{
    if a.len() > 0 && b.len() > 0 {
        if a[0] == b[0] {
            lemma_lex_total(a.drop_first(), b.drop_first());
        } else {
            assert((a[0] as int) != (b[0] as int));
        }
    }
}

/// The order is transitive.
pub proof fn lemma_lex_trans(a: Seq<char>, b: Seq<char>, c: Seq<char>)
    requires
        lex_le(a, b),
        lex_le(b, c),
    ensures
        lex_le(a, c),
    decreases a.len(),
{
    if a.len() > 0 && b.len() > 0 && c.len() > 0 && a[0] == b[0] && b[0] == c[0] {
        lemma_lex_trans(a.drop_first(), b.drop_first(), c.drop_first());
    }
}

/// The order is antisymmetric: sequences ordered both ways are equal.
pub proof fn lemma_lex_antisym(a: Seq<char>, b: Seq<char>)
    requires
        lex_le(a, b),
        lex_le(b, a),
    ensures
        a == b,
    decreases a.len(),
{
    if a.len() > 0 && b.len() > 0 {
        lemma_lex_antisym(a.drop_first(), b.drop_first());
        assert(a =~= seq![a[0]] + a.drop_first());
        assert(b =~= seq![b[0]] + b.drop_first());
    }
}

/// Every sequence comes no later than itself.
pub proof fn lemma_lex_refl(a: Seq<char>)
    ensures
        lex_le(a, a),
    decreases a.len(),
{
    if a.len() > 0 {
        lemma_lex_refl(a.drop_first());
    }
}

/// Whether `a` comes no later than `b` in `String` order.
pub fn chars_le(a: &Vec<char>, b: &Vec<char>) -> (r: bool)
    ensures
        r == lex_le(a@, b@),
{
    let mut i: usize = 0;
    assert(a@.skip(0) =~= a@);
    assert(b@.skip(0) =~= b@);
    while i < a.len() && i < b.len() && a[i] == b[i]
        invariant
            i <= a.len(),
            i <= b.len(),
            lex_le(a@, b@) == lex_le(a@.skip(i as int), b@.skip(i as int)),
        decreases a.len() - i,
    {
        assert(a@.skip(i as int).drop_first() =~= a@.skip(i + 1));
        assert(b@.skip(i as int).drop_first() =~= b@.skip(i + 1));
        i = i + 1;
    }
    if i == a.len() {
        true
    } else if i == b.len() {
        false
    } else {
        a[i] < b[i]
    }
}

/// Whether `a` comes no later than `b` in `String` order.
pub fn str_le(a: &str, b: &str) -> (r: bool)
    ensures
        r == lex_le(a@, b@),
{
    let va = chars_of(a);
    let vb = chars_of(b);
    proof {
        assert(va@.skip(0) =~= va@);
        assert(vb@.skip(0) =~= vb@);
    }
    chars_le(&va, &vb)
}

// ─── Truncation ──────────────────────────────────────────────────────────────

/// `s` cut to at most `max` characters: unchanged when it fits, otherwise its
/// first `max - 1` characters followed by an ellipsis; empty when `max` is 0.
pub open spec fn truncated(s: Seq<char>, max: nat) -> Seq<char> {
    if max == 0 {
        seq![]
    } else if s.len() <= max {
        s
    } else {
        s.take(max - 1).push('…')
    }
}

/// Cuts `s` to fit in `max` characters, marking a cut with `…`.
pub fn truncate(s: &str, max: usize) -> (r: String)
    ensures
        r@ == truncated(s@, max as nat),
        r@.len() <= max,
{
    if max == 0 {
        return String::new();
    }
    let chars = chars_of(s);
    if chars.len() <= max {
        string_from_chars(chars.as_slice())
    } else {
        let mut r = string_of_range(&chars, 0, max - 1);
        push_char(&mut r, '…');
        assert(chars@.subrange(0, max - 1) =~= s@.take(max - 1));
        r
    }
}

// ─── Common prefix ───────────────────────────────────────────────────────────

/// Whether `p` is a prefix of every sequence in `names`.
pub open spec fn prefix_of_all(p: Seq<char>, names: Seq<Seq<char>>) -> bool {
    forall|i: int| 0 <= i < names.len() ==> #[trigger] p.is_prefix_of(names[i])
}

/// `p` is the longest common prefix of `names`: a prefix of all of them, as
/// long as the first of them or such that one more character of the first
/// would no longer be a common prefix. The empty list has the empty prefix.
pub open spec fn is_longest_common_prefix(p: Seq<char>, names: Seq<Seq<char>>) -> bool {
    if names.len() == 0 {
        p.len() == 0
    } else {
        &&& p.is_prefix_of(names[0])
        &&& prefix_of_all(p, names)
        &&& (p.len() < names[0].len() ==> !prefix_of_all(names[0].take(p.len() + 1int), names))
    }
}

/// The longest common prefix of `names`: the first name, shortened one
/// character at a time until every later name starts with it.
pub fn common_prefix(names: &Vec<String>) -> (r: String)
    ensures
        is_longest_common_prefix(r@, views(names@)),
{
    if names.len() == 0 {
        return String::new();
    }
    let ghost ns = views(names@);
    let first = chars_of(names[0].as_str());
    let mut prefix = chars_of(names[0].as_str());
    let n = names.len();
    let mut k: usize = 1;
    assert(prefix@.is_prefix_of(ns[0])) by {
        assert(prefix@ =~= ns[0].subrange(0, prefix@.len() as int));
    }
    while k < n
        invariant
            n == names.len(),
            1 <= k <= n,
            ns == views(names@),
            first@ == ns[0],
            prefix@ == first@.take(prefix@.len() as int),
            prefix@.len() <= first@.len(),
            prefix_of_all(prefix@, ns.take(k as int)),
            prefix@.len() < first@.len() ==> !prefix_of_all(first@.take(prefix@.len() + 1int), ns),
        decreases n - k,
    {
        let s = chars_of(names[k].as_str());
        while !has_prefix(&s, &prefix)
            invariant
                n == names.len(),
                1 <= k < n,
                ns == views(names@),
                s@ == ns[k as int],
                first@ == ns[0],
                prefix@ == first@.take(prefix@.len() as int),
                prefix@.len() <= first@.len(),
                prefix_of_all(prefix@, ns.take(k as int)),
                prefix@.len() < first@.len() ==> !prefix_of_all(
                    first@.take(prefix@.len() + 1int),
                    ns,
                ),
            decreases prefix@.len(),
        {
            if prefix.len() == 0 {
                assert(prefix@.is_prefix_of(s@));
            }
            let ghost old_p = prefix@;
            prefix.pop();
            assert(first@.take(prefix@.len() + 1int) =~= old_p);
            assert(!old_p.is_prefix_of(ns[k as int]));
            assert(!prefix_of_all(old_p, ns));
            assert(prefix@ =~= first@.take(prefix@.len() as int));
            assert forall|i: int| 0 <= i < k implies #[trigger] prefix@.is_prefix_of(ns.take(k as int)[i]) by {
                assert(old_p.is_prefix_of(ns.take(k as int)[i]));
            }
            if prefix.len() == 0 {
                let r = String::new();
                assert(r@ =~= prefix@);
                proof {
                    assert(!prefix_of_all(ns[0].take(1), ns));
                    assert(prefix_of_all(r@, ns)) by {
                        assert forall|i: int| 0 <= i < ns.len() implies #[trigger] r@.is_prefix_of(ns[i]) by {
                            assert(r@ =~= ns[i].subrange(0, 0));
                        }
                    }
                    assert(r@.is_prefix_of(ns[0]));
                }
                return r;
            }
        }
        assert(ns.take(k + 1) =~= ns.take(k as int).push(ns[k as int]));
        assert forall|i: int| 0 <= i < k + 1 implies #[trigger] prefix@.is_prefix_of(ns.take(k + 1)[i]) by {
            if i < k {
                assert(ns.take(k + 1)[i] == ns.take(k as int)[i]);
            }
        }
        k = k + 1;
    }
    assert(ns.take(n as int) =~= ns);
    let r = string_from_chars(prefix.as_slice());
    proof {
        assert(prefix@.is_prefix_of(ns[0])) by {
            assert(prefix@ =~= ns[0].subrange(0, prefix@.len() as int));
        }
    }
    r
}

// ─── Whitespace and trimming ─────────────────────────────────────────────────

/// The characters with Unicode's `White_Space` property, which std's
/// `char::is_whitespace` tests for.
pub open spec fn is_ws(c: char) -> bool {
    let n = c as int;
    ||| 0x9 <= n <= 0xd
    ||| n == 0x20
    ||| n == 0x85
    ||| n == 0xa0
    ||| n == 0x1680
    ||| 0x2000 <= n <= 0x200a
    ||| n == 0x2028
    ||| n == 0x2029
    ||| n == 0x202f
    ||| n == 0x205f
    ||| n == 0x3000
}

/// Whether `c` is white space.
pub fn is_whitespace(c: char) -> (r: bool)
    ensures
        r == is_ws(c),
{
    let n = c as u32;
    (0x9 <= n && n <= 0xd) || n == 0x20 || n == 0x85 || n == 0xa0 || n == 0x1680 || (0x2000 <= n
        && n <= 0x200a) || n == 0x2028 || n == 0x2029 || n == 0x202f || n == 0x205f || n == 0x3000
}

/// `s` without its leading white space.
pub open spec fn trim_start(s: Seq<char>) -> Seq<char>
    decreases s.len(),
{
    if s.len() > 0 && is_ws(s[0]) {
        trim_start(s.drop_first())
    } else {
        s
    }
}

/// `s` without its trailing white space.
pub open spec fn trim_end(s: Seq<char>) -> Seq<char>
    decreases s.len(),
{
    if s.len() > 0 && is_ws(s.last()) {
        trim_end(s.drop_last())
    } else {
        s
    }
}

/// `s` without white space at either end (std's `str::trim`).
pub open spec fn trimmed(s: Seq<char>) -> Seq<char> {
    trim_end(trim_start(s))
}

/// Whether `s` holds only white space.
pub open spec fn all_ws(s: Seq<char>) -> bool {
    forall|i: int| 0 <= i < s.len() ==> is_ws(#[trigger] s[i])
}

/// A sequence trims to nothing exactly when it holds only white space.
pub proof fn lemma_trim_empty(s: Seq<char>)
    ensures
        (trimmed(s).len() == 0) == all_ws(s),
        (trim_start(s).len() == 0) == all_ws(s),
    decreases s.len(),
{
    if s.len() > 0 && is_ws(s[0]) {
        lemma_trim_empty(s.drop_first());
        if all_ws(s.drop_first()) {
            assert forall|i: int| 0 <= i < s.len() implies is_ws(#[trigger] s[i]) by {
                if i > 0 {
                    assert(s[i] == s.drop_first()[i - 1]);
                }
            }
        }
    }
    lemma_trim_end_empty(trim_start(s));
}

/// Trimming the end leaves nothing exactly when there was nothing or only
/// white space; a sequence starting with a non-space character keeps it.
pub proof fn lemma_trim_end_empty(s: Seq<char>)
    ensures
        (trim_end(s).len() == 0) == all_ws(s),
    decreases s.len(),
{
    if s.len() > 0 && is_ws(s.last()) {
        lemma_trim_end_empty(s.drop_last());
        if all_ws(s.drop_last()) {
            assert forall|i: int| 0 <= i < s.len() implies is_ws(#[trigger] s[i]) by {
                if i < s.len() - 1 {
                    assert(s[i] == s.drop_last()[i]);
                }
            }
        }
    }
}

/// `s` without white space at either end.
pub fn trim(s: &str) -> (r: String)
    ensures
        r@ == trimmed(s@),
{
    let v = chars_of(s);
    let mut lo: usize = 0;
    assert(v@.skip(0) =~= v@);
    while lo < v.len() && is_whitespace(v[lo])
        invariant
            lo <= v.len(),
            v@ == s@,
            trim_start(v@.skip(lo as int)) == trim_start(s@),
        decreases v.len() - lo,
    {
        assert(v@.skip(lo as int).drop_first() =~= v@.skip(lo + 1));
        lo = lo + 1;
    }
    let mut hi: usize = v.len();
    assert(v@.subrange(lo as int, hi as int) =~= v@.skip(lo as int));
    while hi > lo && is_whitespace(v[hi - 1])
        invariant
            lo <= hi <= v.len(),
            v@ == s@,
            trim_end(v@.subrange(lo as int, hi as int)) == trimmed(s@),
        decreases hi,
    {
        assert(v@.subrange(lo as int, hi as int).drop_last() =~= v@.subrange(
            lo as int,
            hi - 1,
        ));
        hi = hi - 1;
    }
    string_of_range(&v, lo, hi)
}

/// `s` without its leading white space.
pub fn trim_left(s: &str) -> (r: String)
    ensures
        r@ == trim_start(s@),
{
    let v = chars_of(s);
    let mut lo: usize = 0;
    assert(v@.skip(0) =~= v@);
    while lo < v.len() && is_whitespace(v[lo])
        invariant
            lo <= v.len(),
            v@ == s@,
            trim_start(v@.skip(lo as int)) == trim_start(s@),
        decreases v.len() - lo,
    {
        assert(v@.skip(lo as int).drop_first() =~= v@.skip(lo + 1));
        lo = lo + 1;
    }
    assert(v@.subrange(lo as int, v.len() as int) =~= v@.skip(lo as int));
    string_of_range(&v, lo, v.len())
}

// ─── Searching ───────────────────────────────────────────────────────────────

/// `needle` occurs in `s` starting at position `i`.
pub open spec fn matches_at(s: Seq<char>, needle: Seq<char>, i: int) -> bool {
    0 <= i && i + needle.len() <= s.len() && s.subrange(i, i + needle.len()) == needle
}

/// `i` is where `needle` first occurs in `s`.
pub open spec fn is_first_match(s: Seq<char>, needle: Seq<char>, i: int) -> bool {
    matches_at(s, needle, i) && forall|j: int| 0 <= j < i ==> !matches_at(s, needle, j)
}

/// The position of the first occurrence of `needle` in `s` (std's `str::find`).
pub open spec fn find_first(s: Seq<char>, needle: Seq<char>) -> Option<int> {
    if exists|i: int| matches_at(s, needle, i) {
        Some(choose|i: int| is_first_match(s, needle, i))
    } else {
        None
    }
}

/// Two first occurrences are the same position.
pub proof fn lemma_first_match_unique(s: Seq<char>, needle: Seq<char>, i: int, j: int)
    requires
        is_first_match(s, needle, i),
        is_first_match(s, needle, j),
    ensures
        i == j,
{
    if i < j {
        assert(!matches_at(s, needle, i));
    } else if j < i {
        assert(!matches_at(s, needle, j));
    }
}

/// Where `needle` first occurs in `v`, in characters.
pub fn find_chars(v: &Vec<char>, needle: &Vec<char>) -> (r: Option<usize>)
    ensures
        match r {
            Some(i) => find_first(v@, needle@) == Some(i as int) && is_first_match(v@, needle@, i as int),
            None => find_first(v@, needle@) is None,
        },
{
    if needle.len() > v.len() {
        assert(!exists|i: int| matches_at(v@, needle@, i));
        return None;
    }
    let last = v.len() - needle.len();
    let mut i: usize = 0;
    while i <= last
        invariant
            last == v.len() - needle.len(),
            i <= last + 1,
            forall|j: int| 0 <= j < i ==> !matches_at(v@, needle@, j),
        decreases last + 1 - i,
    {
        let mut k: usize = 0;
        while k < needle.len() && v[i + k] == needle[k]
            invariant
                i <= last,
                last == v.len() - needle.len(),
                k <= needle.len(),
                forall|j: int| 0 <= j < k ==> v@[i + j] == needle@[j],
            decreases needle.len() - k,
        {
            k = k + 1;
        }
        if k == needle.len() {
            assert(v@.subrange(i as int, i + needle@.len()) =~= needle@);
            assert(is_first_match(v@, needle@, i as int));
            proof {
                let c = choose|x: int| is_first_match(v@, needle@, x);
                lemma_first_match_unique(v@, needle@, c, i as int);
            }
            return Some(i);
        }
        assert(v@.subrange(i as int, i + needle@.len())[k as int] != needle@[k as int]);
        i = i + 1;
    }
    None
}

// ─── Splitting ───────────────────────────────────────────────────────────────

/// The pieces of `s` between occurrences of `c` (std's `str::split` with a
/// char): one more piece than there are occurrences, empty pieces included.
pub open spec fn split_on(s: Seq<char>, c: char) -> Seq<Seq<char>>
    decreases s.len(),
{
    if s.len() == 0 {
        seq![seq![]]
    } else if s.last() == c {
        split_on(s.drop_last(), c).push(seq![])
    } else {
        let p = split_on(s.drop_last(), c);
        p.update(p.len() - 1, p.last().push(s.last()))
    }
}

/// `split_on` always yields at least one piece.
pub proof fn lemma_split_nonempty(s: Seq<char>, c: char)
    ensures
        split_on(s, c).len() >= 1,
    decreases s.len(),
{
    if s.len() > 0 {
        lemma_split_nonempty(s.drop_last(), c);
    }
}

/// The pieces of `v` between occurrences of `c`.
pub fn split_chars(v: &Vec<char>, c: char) -> (r: Vec<String>)
    ensures
        views(r@) == split_on(v@, c),
{
    let mut pieces: Vec<String> = Vec::new();
    let mut cur = String::new();
    let n = v.len();
    assert(v@.take(0) =~= Seq::<char>::empty());
    for i in 0..n
        invariant
            n == v.len(),
            views(pieces@).push(cur@) == split_on(v@.take(i as int), c),
    {
        assert(v@.take(i + 1).drop_last() =~= v@.take(i as int));
        proof {
            lemma_split_nonempty(v@.take(i as int), c);
        }
        if v[i] == c {
            let mut done = String::new();
            std::mem::swap(&mut done, &mut cur);
            pieces.push(done);
            assert(views(pieces@).push(cur@) =~= split_on(v@.take(i + 1), c));
        } else {
            let ghost old_pieces = views(pieces@);
            push_char(&mut cur, v[i]);
            assert(views(pieces@).push(cur@) =~= split_on(v@.take(i + 1), c));
        }
    }
    assert(v@.take(n as int) =~= v@);
    pieces.push(cur);
    assert(views(pieces@) =~= split_on(v@, c));
    pieces
}

/// The pieces of `s` between occurrences of `c` (std's `str::split`).
pub fn split_str(s: &str, c: char) -> (r: Vec<String>)
    ensures
        views(r@) == split_on(s@, c),
{
    split_chars(&chars_of(s), c)
}

/// `s` without one trailing carriage return, if it has one.
pub open spec fn strip_cr(s: Seq<char>) -> Seq<char> {
    if s.len() > 0 && s.last() == '\r' {
        s.drop_last()
    } else {
        s
    }
}

/// The lines of `s` (std's `str::lines`): split at `\n`, each line ended by a
/// `\n` loses one `\r` before it, and a final empty piece is not a line.
pub open spec fn lines_of(s: Seq<char>) -> Seq<Seq<char>> {
    let p = split_on(s, '\n');
    let kept = if p.last().len() == 0 {
        p.drop_last()
    } else {
        p
    };
    kept.map(|i: int, l: Seq<char>| if i < p.len() - 1 { strip_cr(l) } else { l })
}

/// The lines of `s`.
pub fn lines(s: &str) -> (r: Vec<String>)
    ensures
        views(r@) == lines_of(s@),
{
    let pieces = split_str(s, '\n');
    proof {
        lemma_split_nonempty(s@, '\n');
    }
    let np = pieces.len();
    let keep = if pieces[np - 1].as_str().unicode_len() == 0 {
        np - 1
    } else {
        np
    };
    let ghost p = split_on(s@, '\n');
    let ghost kept = if p.last().len() == 0 {
        p.drop_last()
    } else {
        p
    };
    assert(kept.len() == keep);
    assert(lines_of(s@).len() == keep);
    let mut out: Vec<String> = Vec::new();
    for i in 0..keep
        invariant
            keep <= np == pieces.len(),
            views(pieces@) == p,
            p == split_on(s@, '\n'),
            kept.len() == keep,
            forall|j: int| 0 <= j < keep ==> kept[j] == p[j],
            lines_of(s@).len() == keep,
            views(out@) == lines_of(s@).take(i as int),
    {
        let piece = &pieces[i];
        let ghost before = views(out@);
        assert(piece@ == p[i as int]);
        assert(lines_of(s@)[i as int] == (if (i as int) < p.len() - 1 {
            strip_cr(p[i as int])
        } else {
            p[i as int]
        }));
        if i + 1 < np {
            let cv = chars_of(piece.as_str());
            let mut end = cv.len();
            if end > 0 && cv[end - 1] == '\r' {
                end = end - 1;
            }
            let l = string_of_range(&cv, 0, end);
            assert(l@ =~= strip_cr(p[i as int]));
            out.push(l);
        } else {
            out.push(piece.clone());
        }
        assert(views(out@) =~= before.push(lines_of(s@)[i as int]));
        assert(views(out@) =~= lines_of(s@).take(i + 1));
    }
    assert(views(out@) =~= lines_of(s@));
    out
}

/// `s` cut at the first occurrence of `c`: what comes before it and, when it
/// occurs, what comes after it (std's `str::splitn(2, c)`).
pub open spec fn split_first(s: Seq<char>, c: char) -> (Seq<char>, Option<Seq<char>>) {
    if s.contains(c) {
        let i = s.index_of_first(c)->0;
        (s.take(i), Some(s.skip(i + 1)))
    } else {
        (s, None)
    }
}

/// Cuts `s` at the first occurrence of `c`.
pub fn split_once_char(s: &str, c: char) -> (r: (String, Option<String>))
    ensures
        (r.0@, match r.1 { Some(t) => Some(t@), None => None }) == split_first(s@, c),
{
    let v = chars_of(s);
    let mut i: usize = 0;
    while i < v.len() && v[i] != c
        invariant
            i <= v.len(),
            v@ == s@,
            forall|j: int| 0 <= j < i ==> v@[j] != c,
        decreases v.len() - i,
    {
        i = i + 1;
    }
    proof {
        s@.index_of_first_ensures(c);
    }
    if i == v.len() {
        assert(!s@.contains(c));
        (string_from_chars(v.as_slice()), None)
    } else {
        assert(s@.contains(c));
        let before = string_of_range(&v, 0, i);
        let after = string_of_range(&v, i + 1, v.len());
        assert(before@ =~= s@.take(i as int));
        assert(after@ =~= s@.skip(i + 1));
        (before, Some(after))
    }
}

// ─── Decimal numerals ────────────────────────────────────────────────────────

/// The digit character for `d < 10`.
pub open spec fn digit_char(d: nat) -> char {
    (d + 48) as char
}

/// The decimal numeral of `n`, without leading zeros (std's `Display` for integers).
pub open spec fn decimal(n: nat) -> Seq<char>
    decreases n,
{
    if n < 10 {
        seq![digit_char(n)]
    } else {
        decimal(n / 10).push(digit_char(n % 10))
    }
}

/// The decimal numeral of `n`, left-padded with zeros to at least `width`
/// characters (std's `{:0width$}`).
pub open spec fn padded_decimal(n: nat, width: nat) -> Seq<char> {
    let d = decimal(n);
    if d.len() >= width {
        d
    } else {
        Seq::new((width - d.len()) as nat, |i: int| '0') + d
    }
}

/// The digit character for `d`.
fn digit(d: u64) -> (c: char)
    requires
        d < 10,
    ensures
        c == digit_char(d as nat),
{
    let b: u8 = (d as u8) + 48;
    b as char
}

/// Appends the decimal numeral of `n` to `s`.
pub fn push_decimal(s: &mut String, n: u64)
    ensures
        final(s)@ == old(s)@ + decimal(n as nat),
    decreases n,
{
    if n < 10 {
        push_char(s, digit(n));
    } else {
        push_decimal(s, n / 10);
        push_char(s, digit(n % 10));
    }
}

/// The decimal numeral of `n`.
pub fn to_decimal(n: u64) -> (r: String)
    ensures
        r@ == decimal(n as nat),
{
    let mut r = String::new();
    push_decimal(&mut r, n);
    r
}

/// The numeral of `n` is at least one character long.
pub proof fn lemma_decimal_len(n: nat)
    ensures
        decimal(n).len() >= 1,
    decreases n,
{
    if n >= 10 {
        lemma_decimal_len(n / 10);
    }
}

/// Appends the decimal numeral of `n`, padded with zeros to `width`.
pub fn push_padded(s: &mut String, n: u64, width: usize)
    ensures
        final(s)@ == old(s)@ + padded_decimal(n as nat, width as nat),
{
    let d = to_decimal(n);
    let len = d.as_str().unicode_len();
    let mut k = len;
    let ghost start = s@;
    while k < width
        invariant
            len == decimal(n as nat).len(),
            len <= k,
            k <= width || k == len,
            s@ == start + Seq::new((k - len) as nat, |i: int| '0'),
        decreases width - k,
    {
        push_char(s, '0');
        assert(s@ =~= start + Seq::new((k + 1 - len) as nat, |i: int| '0'));
        k = k + 1;
    }
    s.append(d.as_str());
    proof {
        if len >= width {
            assert(s@ =~= start + decimal(n as nat));
        } else {
            assert(s@ =~= start + padded_decimal(n as nat, width as nat));
        }
    }
}

// ─── Case mapping ────────────────────────────────────────────────────────────

/// What std's `str::to_lowercase` makes of `s`: Unicode's default lower-case
/// mapping, a function of the characters alone.
pub uninterp spec fn lowercase(s: Seq<char>) -> Seq<char>;

/// std's `str::to_lowercase`; the contract names its result.
#[verifier::external_body]
pub(crate) fn to_lowercase(s: &str) -> (r: String)
    ensures
        r@ == lowercase(s@),
{
    s.to_lowercase()
}

} // verus!
