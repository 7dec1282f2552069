//! Character-level string helpers shared by the inference, filtering and
//! parsing code. Strings are handled through their character sequences.
use vstd::prelude::*;
use vstd::std_specs::iter::IteratorSpec;

verus! {

/// Whether `p` occurs in `s` starting at index `i`.
pub open spec fn occurs_at(s: Seq<char>, p: Seq<char>, i: int) -> bool {
    0 <= i && i + p.len() <= s.len() && s.subrange(i, i + p.len()) == p
}

/// Whether `p` occurs anywhere in `s` (as `str::contains` answers).
pub open spec fn seq_has(s: Seq<char>, p: Seq<char>) -> bool {
    exists|i: int| occurs_at(s, p, i)
}

/// Whether `s` begins with `p`.
pub open spec fn seq_starts(s: Seq<char>, p: Seq<char>) -> bool {
    p.len() <= s.len() && s.subrange(0, p.len() as int) == p
}

/// Whether `s` ends with `p`.
pub open spec fn seq_ends(s: Seq<char>, p: Seq<char>) -> bool {
    p.len() <= s.len() && s.subrange(s.len() - p.len(), s.len() as int) == p
}

/// Number of occurrences of `c` in `s`.
pub open spec fn count_char(s: Seq<char>, c: char) -> nat
    decreases s.len(),
{
    if s.len() == 0 {
        0
    } else {
        count_char(s.drop_last(), c) + if s.last() == c { 1nat } else { 0nat }
    }
}

/// ASCII upper-case letters map to lower case; every other character is kept.
pub open spec fn lower_char(c: char) -> char {
    if 'A' <= c && c <= 'Z' {
        ((c as u32) + 32) as char
    } else {
        c
    }
}

pub open spec fn ascii_lower(s: Seq<char>) -> Seq<char> {
    Seq::new(s.len(), |i: int| lower_char(s[i]))
}

/// Text equal to `global` up to ASCII case is ASCII and lower-cases to
/// `global`.
pub proof fn lemma_global_ascii(r: Seq<char>)
    requires
        eq_ignore_case(r, "global"@),
    ensures
        all_ascii(r),
        ascii_lower(r) == "global"@,
{
    reveal_strlit("global");
    let g = "global"@;
    assert(ascii_lower(g) =~= g);
    assert(ascii_lower(r).len() == 6);
    assert forall|i: int| 0 <= i < r.len() implies is_ascii_char(#[trigger] r[i]) by {
        assert(ascii_lower(r)[i] == lower_char(r[i]));
        assert(g[i] == 'g' || g[i] == 'l' || g[i] == 'o' || g[i] == 'b' || g[i] == 'a');
    }
}

/// `s` neither starts nor ends with `sep` and never holds `sep` twice in a
/// row.
pub open spec fn no_sep_runs(s: Seq<char>, sep: char) -> bool {
    &&& (s.len() > 0 ==> s[0] != sep && s[s.len() - 1] != sep)
    &&& forall|i: int| 0 <= i < s.len() - 1 && #[trigger] s[i] == sep ==> s[i + 1] != sep
}

/// Joining the pieces of a split with the separator gives the text back.
pub proof fn lemma_join_split(s: Seq<char>, sep: char)
    ensures
        join_with(split_on(s, sep), seq![sep]) == s,
    decreases s.len(),
{
    if s.len() > 0 {
        let t = s.drop_last();
        let c = s.last();
        let r = split_on(t, sep);
        lemma_join_split(t, sep);
        lemma_split_nonempty(t, sep);
        assert(s =~= t.push(c));
        if c == sep {
            let q = r.push(Seq::<char>::empty());
            assert(q.drop_last() =~= r);
            assert(join_with(q, seq![sep]) =~= t + seq![sep] + Seq::<char>::empty());
        } else {
            let q = r.update(r.len() - 1, r.last().push(c));
            if r.len() == 1 {
                assert(join_with(q, seq![sep]) == q[0]);
                assert(join_with(r, seq![sep]) == r[0]);
            } else {
                assert(q.drop_last() =~= r.drop_last());
                assert(join_with(q, seq![sep]) == join_with(r.drop_last(), seq![sep]) + seq![sep]
                    + r.last().push(c));
                assert(join_with(q, seq![sep]) =~= join_with(r, seq![sep]).push(c));
            }
        }
    }
}

/// The pieces of a split of text that has no leading separator and no two
/// separators in a row are non-empty, but for the last, which is empty
/// exactly when the text is empty or ends with the separator.
pub proof fn lemma_split_parts_nonempty(s: Seq<char>, sep: char)
    requires
        s.len() > 0 ==> s[0] != sep,
        forall|i: int| 0 <= i < s.len() - 1 && #[trigger] s[i] == sep ==> s[i + 1] != sep,
    ensures
        forall|k: int|
            0 <= k < split_on(s, sep).len() - 1 ==> (#[trigger] split_on(s, sep)[k]).len() > 0,
        split_on(s, sep).len() >= 1,
        (split_on(s, sep).last().len() > 0) == (s.len() > 0 && s.last() != sep),
    decreases s.len(),
{
    lemma_split_nonempty(s, sep);
    if s.len() > 0 {
        let t = s.drop_last();
        assert forall|i: int| 0 <= i < t.len() - 1 && #[trigger] t[i] == sep implies t[i + 1] != sep by {
            assert(s[i] == t[i] && s[i + 1] == t[i + 1]);
        }
        lemma_split_parts_nonempty(t, sep);
        let r = split_on(t, sep);
        if s.last() == sep {
            if t.len() == 0 {
                assert(s[0] == sep);
            } else {
                assert(s[t.len() - 1] == t.last());
            }
        }
    }
}

/// Keeping the elements that pass a test changes nothing when they all pass.
pub proof fn lemma_filter_all<A>(s: Seq<A>, p: spec_fn(A) -> bool)
    requires
        forall|i: int| 0 <= i < s.len() ==> p(#[trigger] s[i]),
    ensures
        s.filter(p) == s,
    decreases s.len(),
{
    reveal(Seq::filter);
    if s.len() > 0 {
        lemma_filter_all(s.drop_last(), p);
        assert(s.drop_last().push(s.last()) =~= s);
    }
}

/// When each character of `s` is the separator or passes `q`, each character
/// of each piece of its split passes `q` and is not the separator.
pub proof fn lemma_split_part_chars(s: Seq<char>, sep: char, q: spec_fn(char) -> bool)
    requires
        forall|i: int| 0 <= i < s.len() ==> #[trigger] s[i] == sep || q(s[i]),
    ensures
        forall|k: int, j: int|
            0 <= k < split_on(s, sep).len() && 0 <= j < split_on(s, sep)[k].len() ==> q(
                #[trigger] split_on(s, sep)[k][j],
            ) && split_on(s, sep)[k][j] != sep,
    decreases s.len(),
{
    lemma_split_nonempty(s, sep);
    if s.len() > 0 {
        let t = s.drop_last();
        assert forall|i: int| 0 <= i < t.len() implies #[trigger] t[i] == sep || q(t[i]) by {
            assert(t[i] == s[i]);
        }
        lemma_split_part_chars(t, sep, q);
        lemma_split_nonempty(t, sep);
        let r = split_on(t, sep);
        let c = s.last();
        assert(c == s[s.len() - 1]);
        if c != sep {
            let q2 = r.update(r.len() - 1, r.last().push(c));
            assert forall|k: int, j: int|
                0 <= k < q2.len() && 0 <= j < q2[k].len() implies q(#[trigger] q2[k][j]) && q2[k][j] != sep by {
                if k == r.len() - 1 {
                    if j < r.last().len() {
                        assert(q2[k][j] == r[k][j]);
                    }
                } else {
                    assert(q2[k] == r[k]);
                }
            }
        } else {
            let q2 = r.push(Seq::<char>::empty());
            assert forall|k: int, j: int|
                0 <= k < q2.len() && 0 <= j < q2[k].len() implies q(#[trigger] q2[k][j]) && q2[k][j] != sep by {
                assert(q2[k] == r[k]);
            }
        }
    }
}

/// Joining non-empty pieces free of the separator gives text that is the
/// separator or a character of a piece at each position (so passes `q` where
/// the pieces do), never starts or ends with the separator and never holds it
/// twice in a row; it is empty only when there are no pieces.
pub proof fn lemma_join_shape(parts: Seq<Seq<char>>, sep: char, q: spec_fn(char) -> bool)
    requires
        forall|k: int| 0 <= k < parts.len() ==> (#[trigger] parts[k]).len() > 0,
        forall|k: int, j: int|
            0 <= k < parts.len() && 0 <= j < parts[k].len() ==> q(#[trigger] parts[k][j])
                && parts[k][j] != sep,
    ensures
        no_sep_runs(join_with(parts, seq![sep]), sep),
        forall|i: int|
            0 <= i < join_with(parts, seq![sep]).len() ==> #[trigger] join_with(parts, seq![sep])[i]
                == sep || q(join_with(parts, seq![sep])[i]),
        parts.len() > 0 ==> join_with(parts, seq![sep]).len() > 0,
    decreases parts.len(),
{
    if parts.len() == 1 {
        let p0 = parts[0];
        assert forall|i: int| 0 <= i < p0.len() implies #[trigger] p0[i] != sep && q(p0[i]) by {
            assert(parts[0][i] == p0[i]);
        }
    } else if parts.len() > 1 {
        let init = parts.drop_last();
        assert forall|k: int, j: int|
            0 <= k < init.len() && 0 <= j < init[k].len() implies q(#[trigger] init[k][j])
                && init[k][j] != sep by {
            assert(init[k] == parts[k]);
        }
        lemma_join_shape(init, sep, q);
        let a = join_with(init, seq![sep]);
        let l = parts.last();
        assert(l == parts[parts.len() - 1]);
        assert forall|j: int| 0 <= j < l.len() implies q(#[trigger] l[j]) && l[j] != sep by {
            assert(parts[parts.len() - 1][j] == l[j]);
        }
        let whole = a + seq![sep] + l;
        assert(join_with(parts, seq![sep]) == whole);
        assert forall|i: int| 0 <= i < whole.len() implies #[trigger] whole[i] == sep || q(whole[i]) by {
            if i < a.len() {
                assert(whole[i] == a[i]);
            } else if i > a.len() {
                assert(whole[i] == l[i - a.len() - 1]);
            }
        }
        assert forall|i: int| 0 <= i < whole.len() - 1 && #[trigger] whole[i] == sep implies whole[i + 1] != sep by {
            if i < a.len() - 1 {
                assert(whole[i] == a[i] && whole[i + 1] == a[i + 1]);
            } else if i == a.len() - 1 {
                assert(whole[i] == a[a.len() - 1]);
            } else if i == a.len() {
                assert(whole[i + 1] == l[0]);
            } else {
                assert(whole[i] == l[i - a.len() - 1]);
            }
        }
        assert(whole[0] == a[0]);
        assert(whole[whole.len() - 1] == l[l.len() - 1]);
    }
}

/// The words of text whose characters all pass `q` have characters that
/// pass `q`.
pub proof fn lemma_words_chars(s: Seq<char>, q: spec_fn(char) -> bool)
    requires
        forall|i: int| 0 <= i < s.len() ==> q(#[trigger] s[i]),
    ensures
        forall|k: int, j: int|
            0 <= k < words(s).len() && 0 <= j < words(s)[k].len() ==> q(#[trigger] words(s)[k][j]),
{
    lemma_words_acc_chars(s, q);
    let (ws, cur) = words_acc(s);
    let w = words(s);
    assert forall|k: int, j: int| 0 <= k < w.len() && 0 <= j < w[k].len() implies q(#[trigger] w[k][j]) by {
        if k < ws.len() {
            assert(w[k] == ws[k]);
        } else {
            assert(w[k] == cur);
        }
    }
}

proof fn lemma_words_acc_chars(s: Seq<char>, q: spec_fn(char) -> bool)
    requires
        forall|i: int| 0 <= i < s.len() ==> q(#[trigger] s[i]),
    ensures
        forall|k: int, j: int|
            0 <= k < words_acc(s).0.len() && 0 <= j < words_acc(s).0[k].len() ==> q(
                #[trigger] words_acc(s).0[k][j],
            ),
        forall|j: int| 0 <= j < words_acc(s).1.len() ==> q(#[trigger] words_acc(s).1[j]),
    decreases s.len(),
{
    if s.len() > 0 {
        let t = s.drop_last();
        assert forall|i: int| 0 <= i < t.len() implies q(#[trigger] t[i]) by {
            assert(t[i] == s[i]);
        }
        lemma_words_acc_chars(t, q);
        let (ws, cur) = words_acc(t);
        let c = s.last();
        assert(q(s[s.len() - 1]));
        let (ws2, cur2) = words_acc(s);
        assert forall|k: int, j: int| 0 <= k < ws2.len() && 0 <= j < ws2[k].len() implies q(#[trigger] ws2[k][j]) by {
            if k < ws.len() {
                assert(ws2[k] == ws[k]);
            } else {
                assert(ws2[k] == cur);
            }
        }
        assert forall|j: int| 0 <= j < cur2.len() implies q(#[trigger] cur2[j]) by {
            if !is_ws(c) && j == cur.len() {
                assert(cur2[j] == c);
            } else if !is_ws(c) {
                assert(cur2[j] == cur[j]);
            }
        }
    }
}

/// Keeping the elements that pass a test, twice, is keeping them once.
pub proof fn lemma_filter_idempotent<A>(s: Seq<A>, p: spec_fn(A) -> bool)
    ensures
        s.filter(p).filter(p) == s.filter(p),
    decreases s.len(),
{
    reveal(Seq::filter);
    if s.len() > 0 {
        lemma_filter_idempotent(s.drop_last(), p);
        let f = s.drop_last().filter(p);
        if p(s.last()) {
            assert(f.push(s.last()).drop_last() =~= f);
            assert(f.push(s.last()).filter(p) == f.filter(p).push(s.last()));
        }
    }
}

/// ASCII lower-case letters map to upper case; every other character is kept.
pub open spec fn upper_ascii_char(c: char) -> char {
    if 'a' <= c && c <= 'z' {
        ((c as u32) - 32) as char
    } else {
        c
    }
}

/// Character-wise ASCII upper-casing (`str::to_ascii_uppercase`).
pub open spec fn ascii_upper(s: Seq<char>) -> Seq<char> {
    Seq::new(s.len(), |i: int| upper_ascii_char(s[i]))
}

/// Upper-casing and then lower-casing ASCII letters is lower-casing them, and
/// upper-casing keeps text ASCII.
pub proof fn lemma_lower_of_upper(s: Seq<char>)
    ensures
        ascii_lower(ascii_upper(s)) == ascii_lower(s),
        all_ascii(s) ==> all_ascii(ascii_upper(s)),
{
    assert forall|i: int| 0 <= i < s.len() implies #[trigger] lower_char(upper_ascii_char(s[i])) == lower_char(s[i]) by {
        let c = s[i];
        if 'a' <= c && c <= 'z' {
            assert((((c as u32) - 32) as char) as u32 + 32 == c as u32);
        }
    }
    assert(ascii_lower(ascii_upper(s)) =~= ascii_lower(s));
}

pub open spec fn is_ascii_char(c: char) -> bool {
    (c as u32) < 128
}

pub open spec fn all_ascii(s: Seq<char>) -> bool {
    forall|i: int| 0 <= i < s.len() ==> is_ascii_char(#[trigger] s[i])
}

pub open spec fn is_ascii_alnum(c: char) -> bool {
    ('a' <= c && c <= 'z') || ('A' <= c && c <= 'Z') || ('0' <= c && c <= '9')
}

/// Unicode `White_Space`, the set `char::is_whitespace` tests.
pub open spec fn is_ws(c: char) -> bool {
    let u = c as u32;
    (0x09 <= u && u <= 0x0d) || u == 0x20 || u == 0x85 || u == 0xa0 || u == 0x1680 || (0x2000
        <= u && u <= 0x200a) || u == 0x2028 || u == 0x2029 || u == 0x202f || u == 0x205f || u
        == 0x3000
}

/// Pieces of `s` between occurrences of `sep`, as `str::split` yields them.
pub open spec fn split_on(s: Seq<char>, sep: char) -> Seq<Seq<char>>
    decreases s.len(),
{
    if s.len() == 0 {
        seq![Seq::<char>::empty()]
    } else {
        let r = split_on(s.drop_last(), sep);
        if s.last() == sep {
            r.push(Seq::<char>::empty())
        } else {
            r.update(r.len() - 1, r.last().push(s.last()))
        }
    }
}

/// `parts` joined with `sep` between neighbours.
pub open spec fn join_with(parts: Seq<Seq<char>>, sep: Seq<char>) -> Seq<char>
    decreases parts.len(),
{
    if parts.len() == 0 {
        Seq::<char>::empty()
    } else if parts.len() == 1 {
        parts[0]
    } else {
        join_with(parts.drop_last(), sep) + sep + parts.last()
    }
}

/// Index of the first character of `s` that is not white space.
pub open spec fn trim_start_at(s: Seq<char>, i: int) -> int
    decreases s.len() - i,
{
    if i < s.len() && is_ws(s[i]) {
        trim_start_at(s, i + 1)
    } else {
        i
    }
}

/// One past the last character of `s` that is not white space.
pub open spec fn trim_end_at(s: Seq<char>, j: int) -> int
    decreases j,
{
    if j > 0 && is_ws(s[j - 1]) {
        trim_end_at(s, j - 1)
    } else {
        j
    }
}

/// `s` with leading and trailing white space removed (`str::trim`).
pub open spec fn trimmed(s: Seq<char>) -> Seq<char> {
    let a = trim_start_at(s, 0);
    let b = trim_end_at(s, s.len() as int);
    if a < b {
        s.subrange(a, b)
    } else {
        Seq::<char>::empty()
    }
}

/// The character sequences of a list of character vectors.
pub open spec fn views(v: Seq<Vec<char>>) -> Seq<Seq<char>> {
    v.map_values(|x: Vec<char>| x@)
}

/// The character sequences of a list of strings.
pub open spec fn strs(v: Seq<String>) -> Seq<Seq<char>> {
    v.map_values(|x: String| x@)
}

/// Equal up to ASCII case (`str::eq_ignore_ascii_case`).
pub open spec fn eq_ignore_case(a: Seq<char>, b: Seq<char>) -> bool {
    ascii_lower(a) == ascii_lower(b)
}

/// Words completed so far and the word in progress, scanning `s` left to right.
pub open spec fn words_acc(s: Seq<char>) -> (Seq<Seq<char>>, Seq<char>)
    decreases s.len(),
{
    if s.len() == 0 {
        (Seq::<Seq<char>>::empty(), Seq::<char>::empty())
    } else {
        let (ws, cur) = words_acc(s.drop_last());
        let c = s.last();
        if is_ws(c) {
            if cur.len() > 0 {
                (ws.push(cur), Seq::<char>::empty())
            } else {
                (ws, cur)
            }
        } else {
            (ws, cur.push(c))
        }
    }
}

/// The non-empty runs of non-white-space characters (`str::split_whitespace`).
pub open spec fn words(s: Seq<char>) -> Seq<Seq<char>> {
    let (ws, cur) = words_acc(s);
    if cur.len() > 0 {
        ws.push(cur)
    } else {
        ws
    }
}

/// Name for what `str::to_lowercase` returns: full Unicode lower-casing.
pub uninterp spec fn unicode_lowercase(s: Seq<char>) -> Seq<char>;

/// Calls `str::to_lowercase`. Claimed: the result is `unicode_lowercase` of the
/// input, and on an all-ASCII input it is the ASCII lower-casing (Unicode maps
/// `A`..`Z` to `a`..`z` and leaves every other ASCII character alone).
#[verifier::external_body]
pub(crate) fn lowercase(s: &str) -> (res: String)
    ensures
        res@ == unicode_lowercase(s@),
        all_ascii(s@) ==> res@ == ascii_lower(s@),
{
    s.to_lowercase()
}

/// Calls `String::push`. Claimed: the character is appended at the end.
#[verifier::external_body]
pub(crate) fn push_char(s: &mut String, c: char)
    ensures
        final(s)@ == old(s)@.push(c),
{
    s.push(c)
}

/// Appends `t` at the end of `s`.
pub(crate) fn push_str(s: &mut String, t: &str)
    ensures
        final(s)@ == old(s)@ + t@,
{
    s.append(t)
}

/// The characters of `s`, in order.
pub fn chars_of(s: &str) -> (res: Vec<char>)
    ensures
        res@ == s@,
{
    let mut out: Vec<char> = Vec::new();
    for c in it: s.chars()
        invariant
            out@ == it.seq().take(it.index() as int),
            it.seq() == s@,
    {
        out.push(c);
    }
    out
}

/// A `String` holding the characters of `v`.
pub fn string_of(v: &Vec<char>) -> (res: String)
    ensures
        res@ == v@,
{
    let mut out = String::new();
    let mut i: usize = 0;
    while i < v.len()
        invariant
            i <= v.len(),
            out@ == v@.take(i as int),
        decreases v.len() - i,
    {
        push_char(&mut out, v[i]);
        assert(v@.take(i + 1) =~= v@.take(i as int).push(v@[i as int]));
        i = i + 1;
    }
    assert(v@.take(v.len() as int) =~= v@);
    out
}

/// An owned copy of `s`.
pub fn owned(s: &str) -> (res: String)
    ensures
        res@ == s@,
{
    let v = chars_of(s);
    string_of(&v)
}

/// Whether the sequences are equal.
pub fn same(a: &Vec<char>, b: &Vec<char>) -> (res: bool)
    ensures
        res == (a@ == b@),
{
    if a.len() != b.len() {
        return false;
    }
    let mut i: usize = 0;
    while i < a.len()
        invariant
            a.len() == b.len(),
            i <= a.len(),
            forall|k: int| 0 <= k < i ==> a@[k] == b@[k],
        decreases a.len() - i,
    {
        if a[i] != b[i] {
            return false;
        }
        i = i + 1;
    }
    assert(a@ =~= b@);
    true
}

/// Whether `a` spells the literal `lit`.
pub fn is(a: &Vec<char>, lit: &str) -> (res: bool)
    ensures
        res == (a@ == lit@),
{
    let b = chars_of(lit);
    same(a, &b)
}

/// Whether two string slices hold the same characters.
pub fn str_eq(a: &str, b: &str) -> (res: bool)
    ensures
        res == (a@ == b@),
{
    let x = chars_of(a);
    let y = chars_of(b);
    same(&x, &y)
}

/// Whether `p` occurs in `s` at index `i`.
pub fn matches_at(s: &Vec<char>, p: &Vec<char>, i: usize) -> (res: bool)
    ensures
        res == occurs_at(s@, p@, i as int),
{
    if i > s.len() || p.len() > s.len() - i {
        return false;
    }
    let mut k: usize = 0;
    while k < p.len()
        invariant
            i + p.len() <= s.len(),
            k <= p.len(),
            forall|j: int| 0 <= j < k ==> s@[i + j] == p@[j],
        decreases p.len() - k,
    {
        if s[i + k] != p[k] {
            assert(s@.subrange(i as int, i + p.len())[k as int] != p@[k as int]);
            return false;
        }
        k = k + 1;
    }
    assert(s@.subrange(i as int, i + p.len()) =~= p@);
    true
}

/// Whether `s` contains the literal `lit` (`str::contains`).
pub fn has_lit(s: &Vec<char>, lit: &str) -> (res: bool)
    ensures
        res == seq_has(s@, lit@),
{
    let p = chars_of(lit);
    if p.len() > s.len() {
        assert forall|i: int| !occurs_at(s@, p@, i) by {}
        return false;
    }
    if p.len() == 0 {
        assert(s@.subrange(0, 0) =~= p@);
        assert(occurs_at(s@, p@, 0));
        return true;
    }
    let mut i: usize = 0;
    while i <= s.len() - p.len()
        invariant
            p@ == lit@,
            1 <= p.len() <= s.len(),
            i <= s.len() - p.len() + 1,
            forall|j: int| 0 <= j < i ==> !occurs_at(s@, p@, j),
        decreases s.len() - p.len() + 1 - i,
    {
        if matches_at(s, &p, i) {
            return true;
        }
        i = i + 1;
    }
    assert forall|j: int| !occurs_at(s@, p@, j) by {
        if 0 <= j && j + p@.len() <= s@.len() {
            assert(j < i);
        }
    }
    false
}

/// Whether `s` begins with the literal `lit` (`str::starts_with`).
pub fn begins(s: &Vec<char>, lit: &str) -> (res: bool)
    ensures
        res == seq_starts(s@, lit@),
{
    let p = chars_of(lit);
    let r = matches_at(s, &p, 0);
    proof {
        if seq_starts(s@, p@) {
            assert(occurs_at(s@, p@, 0));
        }
    }
    r
}

/// Whether `s` ends with the literal `lit` (`str::ends_with`).
pub fn finishes(s: &Vec<char>, lit: &str) -> (res: bool)
    ensures
        res == seq_ends(s@, lit@),
{
    let p = chars_of(lit);
    if p.len() > s.len() {
        return false;
    }
    matches_at(s, &p, s.len() - p.len())
}

/// Number of occurrences of `c` in `s`.
pub fn count_of(s: &Vec<char>, c: char) -> (res: usize)
    ensures
        res == count_char(s@, c),
{
    let mut n: usize = 0;
    let mut i: usize = 0;
    while i < s.len()
        invariant
            i <= s.len(),
            n == count_char(s@.take(i as int), c),
            n <= i,
        decreases s.len() - i,
    {
        assert(s@.take(i + 1).drop_last() =~= s@.take(i as int));
        if s[i] == c {
            n = n + 1;
        }
        i = i + 1;
    }
    assert(s@.take(s.len() as int) =~= s@);
    n
}

/// Character-wise ASCII lower-casing (`str::to_ascii_lowercase`).
pub fn to_ascii_lower(s: &Vec<char>) -> (res: Vec<char>)
    ensures
        res@ == ascii_lower(s@),
{
    let mut out: Vec<char> = Vec::new();
    let mut i: usize = 0;
    while i < s.len()
        invariant
            i <= s.len(),
            out@ == ascii_lower(s@.take(i as int)),
        decreases s.len() - i,
    {
        let c = s[i];
        let l = if 'A' <= c && c <= 'Z' {
            char_plus_32(c)
        } else {
            c
        };
        out.push(l);
        assert(ascii_lower(s@.take(i + 1)) =~= ascii_lower(s@.take(i as int)).push(l));
        i = i + 1;
    }
    assert(s@.take(s.len() as int) =~= s@);
    out
}

fn char_plus_32(c: char) -> (res: char)
    requires
        'A' <= c && c <= 'Z',
    ensures
        res == ((c as u32) + 32) as char,
{
    let u: u32 = (c as u32) + 32;
    let b: u8 = u as u8;
    b as char
}

/// The pieces of `s` between occurrences of `sep` (`str::split`).
pub fn split(s: &Vec<char>, sep: char) -> (res: Vec<Vec<char>>)
    ensures
        res.len() == split_on(s@, sep).len(),
        forall|k: int| 0 <= k < res.len() ==> (#[trigger] res[k])@ == split_on(s@, sep)[k],
{
    let mut out: Vec<Vec<char>> = Vec::new();
    out.push(Vec::new());
    let mut i: usize = 0;
    assert(s@.take(0) =~= Seq::<char>::empty());
    assert(out@.len() == 1);
    assert(out[0]@ =~= Seq::<char>::empty());
    while i < s.len()
        invariant
            i <= s.len(),
            out.len() == split_on(s@.take(i as int), sep).len(),
            out.len() >= 1,
            forall|k: int| 0 <= k < out.len() ==> (#[trigger] out[k])@ == split_on(s@.take(i as int), sep)[k],
        decreases s.len() - i,
    {
        let ghost before = split_on(s@.take(i as int), sep);
        assert(s@.take(i + 1).drop_last() =~= s@.take(i as int));
        let c = s[i];
        if c == sep {
            out.push(Vec::new());
            assert(out[out.len() - 1]@ =~= Seq::<char>::empty());
        } else {
            let last = out.len() - 1;
            let mut piece = out.remove(last);
            piece.push(c);
            out.push(piece);
        }
        i = i + 1;
        proof {
            let after = split_on(s@.take(i as int), sep);
            assert forall|k: int| 0 <= k < out.len() implies (#[trigger] out[k])@ == after[k] by {}
        }
    }
    assert(s@.take(s.len() as int) =~= s@);
    out
}

/// `parts` joined with `sep` (`[..].join(sep)`).
pub fn join(parts: &Vec<Vec<char>>, sep: &str) -> (res: Vec<char>)
    ensures
        res@ == join_with(views(parts@), sep@),
{
    let sv = chars_of(sep);
    let ghost ps = parts@.map_values(|p: Vec<char>| p@);
    let mut out: Vec<char> = Vec::new();
    let mut i: usize = 0;
    while i < parts.len()
        invariant
            i <= parts.len(),
            sv@ == sep@,
            ps == parts@.map_values(|p: Vec<char>| p@),
            out@ == join_with(ps.take(i as int), sep@),
        decreases parts.len() - i,
    {
        assert(ps.take(i + 1).drop_last() =~= ps.take(i as int));
        if i > 0 {
            let mut k: usize = 0;
            let ghost base = out@;
            while k < sv.len()
                invariant
                    k <= sv.len(),
                    out@ == base + sv@.take(k as int),
                decreases sv.len() - k,
            {
                out.push(sv[k]);
                assert(sv@.take(k + 1) =~= sv@.take(k as int).push(sv@[k as int]));
                k = k + 1;
            }
            assert(sv@.take(sv.len() as int) =~= sv@);
        }
        let ghost base2 = out@;
        let p = &parts[i];
        let mut k: usize = 0;
        while k < p.len()
            invariant
                k <= p.len(),
                out@ == base2 + p@.take(k as int),
            decreases p.len() - k,
        {
            out.push(p[k]);
            assert(p@.take(k + 1) =~= p@.take(k as int).push(p@[k as int]));
            k = k + 1;
        }
        assert(p@.take(p.len() as int) =~= p@);
        proof {
            if i == 0 {
                assert(ps.take(1) =~= seq![p@]);
                assert(out@ =~= p@);
            } else {
                assert(ps.take(i + 1).last() == p@);
                assert(out@ =~= join_with(ps.take(i as int), sep@) + sep@ + p@);
            }
        }
        i = i + 1;
    }
    assert(ps.take(parts.len() as int) =~= ps);
    out
}

/// The words of `s` (`str::split_whitespace`).
pub fn split_words(s: &Vec<char>) -> (res: Vec<Vec<char>>)
    ensures
        views(res@) == words(s@),
{
    let mut ws: Vec<Vec<char>> = Vec::new();
    let mut cur: Vec<char> = Vec::new();
    let mut i: usize = 0;
    assert(s@.take(0) =~= Seq::<char>::empty());
    assert(views(ws@) =~= Seq::<Seq<char>>::empty());
    while i < s.len()
        invariant
            i <= s.len(),
            views(ws@) == words_acc(s@.take(i as int)).0,
            cur@ == words_acc(s@.take(i as int)).1,
        decreases s.len() - i,
    {
        assert(s@.take(i + 1).drop_last() =~= s@.take(i as int));
        let c = s[i];
        if is_space(c) {
            if cur.len() > 0 {
                let ghost before = ws@;
                ws.push(cur);
                assert(views(ws@) =~= views(before).push(cur@));
                cur = Vec::new();
                assert(cur@ =~= Seq::<char>::empty());
            }
        } else {
            cur.push(c);
        }
        i = i + 1;
    }
    assert(s@.take(s.len() as int) =~= s@);
    if cur.len() > 0 {
        let ghost before = ws@;
        ws.push(cur);
        assert(views(ws@) =~= views(before).push(words_acc(s@).1));
    }
    ws
}

/// `s` without leading and trailing white space (`str::trim`).
pub fn trim(s: &Vec<char>) -> (res: Vec<char>)
    ensures
        res@ == trimmed(s@),
{
    let mut a: usize = 0;
    while a < s.len() && is_space(s[a])
        invariant
            a <= s.len(),
            trim_start_at(s@, 0) == trim_start_at(s@, a as int),
        decreases s.len() - a,
    {
        a = a + 1;
    }
    let mut b: usize = s.len();
    while b > 0 && is_space(s[b - 1])
        invariant
            b <= s.len(),
            trim_end_at(s@, s.len() as int) == trim_end_at(s@, b as int),
        decreases b,
    {
        b = b - 1;
    }
    let mut out: Vec<char> = Vec::new();
    if a < b {
        let mut k = a;
        while k < b
            invariant
                a <= k <= b,
                b <= s.len(),
                out@ == s@.subrange(a as int, k as int),
            decreases b - k,
        {
            out.push(s[k]);
            assert(s@.subrange(a as int, k + 1) =~= s@.subrange(a as int, k as int).push(s@[k as int]));
            k = k + 1;
        }
    } else {
        assert(out@ =~= Seq::<char>::empty());
    }
    out
}

/// Whether `c` is Unicode white space (`char::is_whitespace`).
pub fn is_space(c: char) -> (res: bool)
    ensures
        res == is_ws(c),
{
    let u = c as u32;
    (0x09 <= u && u <= 0x0d) || u == 0x20 || u == 0x85 || u == 0xa0 || u == 0x1680 || (0x2000
        <= u && u <= 0x200a) || u == 0x2028 || u == 0x2029 || u == 0x202f || u == 0x205f || u
        == 0x3000
}

/// Whether `a` equals the literal `lit` up to ASCII case.
pub fn eq_ignore_case_lit(a: &Vec<char>, lit: &str) -> (res: bool)
    ensures
        res == eq_ignore_case(a@, lit@),
{
    let b = chars_of(lit);
    let la = to_ascii_lower(a);
    let lb = to_ascii_lower(&b);
    same(&la, &lb)
}

/// Character vectors for a list of strings.
pub fn chars_list(v: &Vec<String>) -> (res: Vec<Vec<char>>)
    ensures
        views(res@) == strs(v@),
{
    let mut out: Vec<Vec<char>> = Vec::new();
    let mut i: usize = 0;
    while i < v.len()
        invariant
            i <= v.len(),
            views(out@) == strs(v@).take(i as int),
        decreases v.len() - i,
    {
        let c = chars_of(v[i].as_str());
        let ghost before = out@;
        out.push(c);
        assert(views(out@) =~= views(before).push(c@));
        assert(strs(v@).take(i + 1) =~= strs(v@).take(i as int).push(v@[i as int]@));
        i = i + 1;
    }
    assert(strs(v@).take(v.len() as int) =~= strs(v@));
    out
}

/// Strings for a list of character vectors.
pub fn string_list(v: &Vec<Vec<char>>) -> (res: Vec<String>)
    ensures
        strs(res@) == views(v@),
{
    let mut out: Vec<String> = Vec::new();
    let mut i: usize = 0;
    while i < v.len()
        invariant
            i <= v.len(),
            strs(out@) == views(v@).take(i as int),
        decreases v.len() - i,
    {
        let c = string_of(&v[i]);
        let ghost before = out@;
        out.push(c);
        assert(strs(out@) =~= strs(before).push(c@));
        assert(views(v@).take(i + 1) =~= views(v@).take(i as int).push(v@[i as int]@));
        i = i + 1;
    }
    assert(views(v@).take(v.len() as int) =~= views(v@));
    out
}

/// Whether every character is ASCII.
pub fn ascii_only(s: &Vec<char>) -> (res: bool)
    ensures
        res == all_ascii(s@),
{
    let mut i: usize = 0;
    while i < s.len()
        invariant
            i <= s.len(),
            forall|k: int| 0 <= k < i ==> is_ascii_char(#[trigger] s@[k]),
        decreases s.len() - i,
    {
        if (s[i] as u32) >= 128 {
            return false;
        }
        i = i + 1;
    }
    true
}

/// Extending a prefix by one element extends its filtered form by that
/// element exactly when the element passes the predicate.
pub proof fn lemma_take_filter<A>(s: Seq<A>, i: int, pred: spec_fn(A) -> bool)
    requires
        0 <= i < s.len(),
    ensures
        s.take(i + 1).filter(pred) == (if pred(s[i]) {
            s.take(i).filter(pred).push(s[i])
        } else {
            s.take(i).filter(pred)
        }),
{
    reveal(Seq::filter);
    assert(s.take(i + 1).drop_last() =~= s.take(i));
    assert(s.take(i + 1).last() == s[i]);
}

/// The first index at or after `i` where `p` occurs in `s`, or -1.
pub open spec fn first_occ_from(s: Seq<char>, p: Seq<char>, i: int) -> int
    decreases s.len() - i,
{
    if i < 0 || i + p.len() > s.len() {
        -1
    } else if p.len() == 0 || occurs_at(s, p, i) {
        i
    } else {
        first_occ_from(s, p, i + 1)
    }
}

/// The text before the first occurrence of `p` (all of `s` when `p` does not
/// occur): the first piece `str::split` yields.
pub open spec fn before_first(s: Seq<char>, p: Seq<char>) -> Seq<char> {
    let k = first_occ_from(s, p, 0);
    if k >= 0 {
        s.take(k)
    } else {
        s
    }
}

/// The first piece of `s` split on `sep` (`s.split(sep).next()`); an empty
/// separator matches at the start, so the first piece is then empty.
pub fn first_piece(s: &str, sep: &str) -> (res: String)
    ensures
        res@ == before_first(s@, sep@),
{
    let sv = chars_of(s);
    let pv = chars_of(sep);
    if pv.len() == 0 {
        assert(first_occ_from(s@, sep@, 0) == 0);
        assert(s@.take(0) =~= Seq::<char>::empty());
        return String::new();
    }
    let mut i: usize = 0;
    while i <= sv.len() && pv.len() <= sv.len() - i
        invariant
            sv@ == s@,
            pv@ == sep@,
            pv.len() > 0,
            i <= sv.len(),
            first_occ_from(sv@, pv@, 0) == first_occ_from(sv@, pv@, i as int),
        decreases sv.len() - i,
    {
        if matches_at(&sv, &pv, i) {
            let mut out: Vec<char> = Vec::new();
            let mut k: usize = 0;
            while k < i
                invariant
                    k <= i,
                    i <= sv.len(),
                    out@ == sv@.take(k as int),
                decreases i - k,
            {
                out.push(sv[k]);
                assert(sv@.take(k + 1) =~= sv@.take(k as int).push(sv@[k as int]));
                k = k + 1;
            }
            return string_of(&out);
        }
        i = i + 1;
    }
    string_of(&sv)
}

/// The decimal digit for `d` (0 to 9).
pub open spec fn digit_char(d: nat) -> char {
    if d == 0 { '0' } else if d == 1 { '1' } else if d == 2 { '2' } else if d == 3 { '3' }
    else if d == 4 { '4' } else if d == 5 { '5' } else if d == 6 { '6' } else if d == 7 { '7' }
    else if d == 8 { '8' } else { '9' }
}

/// The decimal text of `n` (as `Display` writes an unsigned integer).
pub open spec fn nat_text(n: nat) -> Seq<char>
    decreases n,
{
    if n < 10 {
        seq![digit_char(n)]
    } else {
        nat_text(n / 10).push(digit_char(n % 10))
    }
}

fn digit_of(d: u64) -> (res: char)
    requires
        d < 10,
    ensures
        res == digit_char(d as nat),
{
    if d == 0 { '0' } else if d == 1 { '1' } else if d == 2 { '2' } else if d == 3 { '3' }
    else if d == 4 { '4' } else if d == 5 { '5' } else if d == 6 { '6' } else if d == 7 { '7' }
    else if d == 8 { '8' } else { '9' }
}

fn push_digits(out: &mut Vec<char>, n: u64)
    ensures
        final(out)@ == old(out)@ + nat_text(n as nat),
    decreases n,
{
    if n >= 10 {
        push_digits(out, n / 10);
    }
    out.push(digit_of(n % 10));
    proof {
        if n < 10 {
            assert(n % 10 == n);
        }
    }
}

/// The decimal text of `n`.
pub fn u64_text(n: u64) -> (res: String)
    ensures
        res@ == nat_text(n as nat),
{
    let mut v: Vec<char> = Vec::new();
    push_digits(&mut v, n);
    assert(v@ =~= nat_text(n as nat));
    string_of(&v)
}

/// Splitting always yields at least one piece.
pub proof fn lemma_split_nonempty(s: Seq<char>, sep: char)
    ensures
        split_on(s, sep).len() >= 1,
    decreases s.len(),
{
    if s.len() > 0 {
        lemma_split_nonempty(s.drop_last(), sep);
    }
}

/// The decimal text of a signed integer.
pub open spec fn int_text(n: int) -> Seq<char> {
    if n < 0 {
        seq!['-'] + nat_text((-n) as nat)
    } else {
        nat_text(n as nat)
    }
}

/// The decimal text of `n`.
pub fn i64_text(n: i64) -> (res: String)
    ensures
        res@ == int_text(n as int),
{
    if n < 0 {
        let m: u64 = (0i128 - (n as i128)) as u64;
        let mut v: Vec<char> = Vec::new();
        v.push('-');
        push_digits(&mut v, m);
        assert(v@ =~= seq!['-'] + nat_text(m as nat));
        string_of(&v)
    } else {
        u64_text(n as u64)
    }
}

fn digit_of128(d: u128) -> (res: char)
    requires
        d < 10,
    ensures
        res == digit_char(d as nat),
{
    digit_of(d as u64)
}

fn push_digits128(out: &mut Vec<char>, n: u128)
    ensures
        final(out)@ == old(out)@ + nat_text(n as nat),
    decreases n,
{
    if n >= 10 {
        push_digits128(out, n / 10);
    }
    out.push(digit_of128(n % 10));
    proof {
        if n < 10 {
            assert(n % 10 == n);
        }
    }
}

/// The decimal text of `n`.
pub fn u128_text(n: u128) -> (res: String)
    ensures
        res@ == nat_text(n as nat),
{
    let mut v: Vec<char> = Vec::new();
    push_digits128(&mut v, n);
    assert(v@ =~= nat_text(n as nat));
    string_of(&v)
}

} // verus!
