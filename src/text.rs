//! Character-level helpers on strings: whitespace, tokens, prefixes,
//! trimming and decimal rendering, each with the model it computes.
use vstd::prelude::*;
use vstd::string::*;

verus! {

/// The characters that `char::is_whitespace` accepts (Unicode White_Space).
pub open spec fn is_space(c: char) -> bool {
    let u = c as u32;
    u == 0x20 || (0x09 <= u && u <= 0x0d) || u == 0x85 || u == 0xa0 || u == 0x1680
        || (0x2000 <= u && u <= 0x200a) || u == 0x2028 || u == 0x2029 || u == 0x202f
        || u == 0x205f || u == 0x3000
}

/// Executable form of `is_space`.
pub fn space(c: char) -> (r: bool)
    ensures
        r == is_space(c),
{
    let u = c as u32;
    u == 0x20 || (0x09 <= u && u <= 0x0d) || u == 0x85 || u == 0xa0 || u == 0x1680
        || (0x2000 <= u && u <= 0x200a) || u == 0x2028 || u == 0x2029 || u == 0x202f
        || u == 0x205f || u == 0x3000
}

/// A word: a non-empty run of characters none of which is whitespace.
pub open spec fn is_word(w: Seq<char>) -> bool {
    w.len() > 0 && forall|i: int| 0 <= i < w.len() ==> !is_space(#[trigger] w[i])
}

/// Splits `s` at whitespace, `cur` being the word read so far.
pub open spec fn split_from(s: Seq<char>, cur: Seq<char>) -> Seq<Seq<char>>
    decreases s.len(),
{
    if s.len() == 0 {
        if cur.len() > 0 { seq![cur] } else { seq![] }
    } else if is_space(s[0]) {
        (if cur.len() > 0 { seq![cur] } else { seq![] }) + split_from(s.drop_first(), seq![])
    } else {
        split_from(s.drop_first(), cur.push(s[0]))
    }
}

/// The whitespace-separated words of `s`, in order (as `str::split_whitespace`).
pub open spec fn tokens(s: Seq<char>) -> Seq<Seq<char>> {
    split_from(s, seq![])
}

/// Words joined by single spaces.
pub open spec fn join(ws: Seq<Seq<char>>) -> Seq<char>
    decreases ws.len(),
{
    if ws.len() == 0 {
        seq![]
    } else if ws.len() == 1 {
        ws[0]
    } else {
        ws[0] + (seq![' '] + join(ws.drop_first()))
    }
}

pub open spec fn has_prefix(s: Seq<char>, p: Seq<char>) -> bool {
    p.len() <= s.len() && s.subrange(0, p.len() as int) == p
}

pub open spec fn occurs_at(s: Seq<char>, p: Seq<char>, i: int) -> bool {
    0 <= i && i + p.len() <= s.len() && s.subrange(i, i + p.len()) == p
}

pub open spec fn has_infix(s: Seq<char>, p: Seq<char>) -> bool {
    exists|i: int| occurs_at(s, p, i)
}

/// Number of whitespace characters at the start of `s`.
pub open spec fn leading_spaces(s: Seq<char>) -> nat
    decreases s.len(),
{
    if s.len() > 0 && is_space(s[0]) { 1 + leading_spaces(s.drop_first()) } else { 0 }
}

/// Number of whitespace characters at the end of `s`.
pub open spec fn trailing_spaces(s: Seq<char>) -> nat
    decreases s.len(),
{
    if s.len() > 0 && is_space(s.last()) { 1 + trailing_spaces(s.drop_last()) } else { 0 }
}

pub open spec fn trim_start(s: Seq<char>) -> Seq<char> {
    s.skip(leading_spaces(s) as int)
}

pub open spec fn trim_end(s: Seq<char>) -> Seq<char> {
    s.take(s.len() - trailing_spaces(s))
}

/// `s` without whitespace at either end (as `str::trim`).
pub open spec fn trim(s: Seq<char>) -> Seq<char> {
    trim_end(trim_start(s))
}

pub proof fn lemma_leading_spaces_bound(s: Seq<char>)
    ensures
        leading_spaces(s) <= s.len(),
        forall|i: int| 0 <= i < leading_spaces(s) ==> is_space(#[trigger] s[i]),
        leading_spaces(s) < s.len() ==> !is_space(s[leading_spaces(s) as int]),
    decreases s.len(),
{
    if s.len() > 0 && is_space(s[0]) {
        lemma_leading_spaces_bound(s.drop_first());
        assert forall|i: int| 0 <= i < leading_spaces(s) implies is_space(#[trigger] s[i]) by {
            if i > 0 {
                assert(s[i] == s.drop_first()[i - 1]);
            }
        }
    }
}

pub proof fn lemma_trailing_spaces_bound(s: Seq<char>)
    ensures
        trailing_spaces(s) <= s.len(),
        forall|i: int| s.len() - trailing_spaces(s) <= i < s.len() ==> is_space(#[trigger] s[i]),
        trailing_spaces(s) < s.len() ==> !is_space(s[s.len() - trailing_spaces(s) - 1]),
    decreases s.len(),
{
    if s.len() > 0 && is_space(s.last()) {
        lemma_trailing_spaces_bound(s.drop_last());
        assert forall|i: int| s.len() - trailing_spaces(s) <= i < s.len() implies is_space(
            #[trigger] s[i],
        ) by {
            if i < s.len() - 1 {
                assert(s[i] == s.drop_last()[i]);
            }
        }
    }
}

/// Whether `s` starts with `p` (as `str::starts_with`).
pub fn starts_with(s: &str, p: &str) -> (r: bool)
    ensures
        r == has_prefix(s@, p@),
{
    let n = s.unicode_len();
    let m = p.unicode_len();
    if m > n {
        return false;
    }
    let mut i: usize = 0;
    while i < m
        invariant
            n == s@.len(),
            m == p@.len(),
            m <= n,
            i <= m,
            forall|j: int| 0 <= j < i ==> s@[j] == p@[j],
        decreases m - i,
    {
        if s.get_char(i) != p.get_char(i) {
            assert(s@.subrange(0, m as int)[i as int] != p@[i as int]);
            return false;
        }
        i = i + 1;
    }
    assert(s@.subrange(0, m as int) =~= p@);
    true
}

/// Whether `p` occurs in `s` at character position `at`.
pub fn occurs_at_exec(s: &str, p: &str, at: usize) -> (r: bool)
    requires
        at + p@.len() <= s@.len(),
    ensures
        r == occurs_at(s@, p@, at as int),
{
    let n = s.unicode_len();
    let m = p.unicode_len();
    let mut i: usize = 0;
    while i < m
        invariant
            m == p@.len(),
            n == s@.len(),
            at + m <= n,
            i <= m,
            forall|j: int| 0 <= j < i ==> s@[at + j] == p@[j],
        decreases m - i,
    {
        if s.get_char(at + i) != p.get_char(i) {
            assert(s@.subrange(at as int, at + m)[i as int] != p@[i as int]);
            return false;
        }
        i = i + 1;
    }
    assert(s@.subrange(at as int, at + m) =~= p@);
    true
}

/// Whether `p` occurs anywhere in `s` (as `str::contains`).
pub fn contains(s: &str, p: &str) -> (r: bool)
    ensures
        r == has_infix(s@, p@),
{
    let n = s.unicode_len();
    let m = p.unicode_len();
    if m > n {
        assert forall|i: int| !occurs_at(s@, p@, i) by {}
        return false;
    }
    let mut i: usize = 0;
    while i < n - m
        invariant
            n == s@.len(),
            m == p@.len(),
            m <= n,
            i <= n - m,
            forall|j: int| 0 <= j < i ==> !occurs_at(s@, p@, j),
        decreases n - m - i,
    {
        if occurs_at_exec(s, p, i) {
            return true;
        }
        i = i + 1;
    }
    if occurs_at_exec(s, p, i) {
        return true;
    }
    assert forall|j: int| !occurs_at(s@, p@, j) by {
        if 0 <= j && j <= i {
        }
    }
    false
}

/// The views of a sequence of strings.
pub open spec fn views(v: Seq<String>) -> Seq<Seq<char>> {
    v.map_values(|w: String| w@)
}

pub proof fn lemma_views_push(v: Seq<String>, w: String)
    ensures
        views(v.push(w)) == views(v).push(w@),
{
    assert(views(v.push(w)) =~= views(v).push(w@));
}

/// The whitespace-separated words of `s` (as `str::split_whitespace`).
pub fn split_words(s: &str) -> (r: Vec<String>)
    ensures
        views(r@) == tokens(s@),
{
    let n = s.unicode_len();
    let mut out: Vec<String> = Vec::new();
    let mut start: usize = 0;
    let mut in_word = false;
    let mut i: usize = 0;
    proof {
        assert(s@.skip(0) =~= s@);
        assert(views(out@) + split_from(s@.skip(0), seq![]) =~= tokens(s@));
    }
    while i < n
        invariant
            n == s@.len(),
            i <= n,
            in_word ==> start < i,
            tokens(s@) == views(out@) + split_from(
                s@.skip(i as int),
                if in_word { s@.subrange(start as int, i as int) } else { seq![] },
            ),
        decreases n - i,
    {
        let c = s.get_char(i);
        let ghost cur = if in_word { s@.subrange(start as int, i as int) } else { seq![] };
        let ghost rest = s@.skip(i as int);
        proof {
            assert(rest[0] == c);
            assert(rest.drop_first() =~= s@.skip(i + 1));
        }
        if space(c) {
            if in_word {
                let w = String::from_str(s.substring_char(start, i));
                proof {
                    lemma_views_push(out@, w);
                    assert(views(out@) + (seq![cur] + split_from(rest.drop_first(), seq![]))
                        =~= views(out@).push(w@) + split_from(rest.drop_first(), seq![]));
                }
                out.push(w);
            } else {
                assert(seq![] + split_from(rest.drop_first(), seq![]) =~= split_from(
                    rest.drop_first(),
                    seq![],
                ));
            }
            in_word = false;
        } else {
            if !in_word {
                start = i;
                assert(cur.push(c) =~= s@.subrange(i as int, i + 1));
            } else {
                assert(cur.push(c) =~= s@.subrange(start as int, i + 1));
            }
            in_word = true;
        }
        i = i + 1;
    }
    proof {
        assert(s@.skip(n as int) =~= Seq::<char>::empty());
    }
    if in_word {
        let w = String::from_str(s.substring_char(start, n));
        proof {
            lemma_views_push(out@, w);
            assert(views(out@) + seq![w@] =~= views(out@).push(w@));
        }
        out.push(w);
    } else {
        assert(views(out@) + seq![] =~= views(out@));
    }
    out
}

/// The character position where `s` stops being whitespace.
fn skip_leading_spaces(s: &str) -> (r: usize)
    ensures
        r == leading_spaces(s@),
{
    let n = s.unicode_len();
    let mut i: usize = 0;
    assert(s@.skip(0) =~= s@);
    while i < n && space(s.get_char(i))
        invariant
            n == s@.len(),
            i <= n,
            leading_spaces(s@) == i + leading_spaces(s@.skip(i as int)),
        decreases n - i,
    {
        proof {
            let t = s@.skip(i as int);
            assert(t[0] == s@[i as int]);
            assert(t.drop_first() =~= s@.skip(i + 1));
        }
        i = i + 1;
    }
    proof {
        let t = s@.skip(i as int);
        if i < n {
            assert(t[0] == s@[i as int]);
        }
    }
    i
}

/// The character position where the trailing whitespace of `s` begins.
fn trailing_start(s: &str) -> (r: usize)
    ensures
        r == s@.len() - trailing_spaces(s@),
{
    let n = s.unicode_len();
    let mut k: usize = n;
    proof {
        assert(s@.take(n as int) =~= s@);
    }
    while k > 0 && space(s.get_char(k - 1))
        invariant
            n == s@.len(),
            k <= n,
            trailing_spaces(s@) == (n - k) + trailing_spaces(s@.take(k as int)),
        decreases k,
    {
        proof {
            let t = s@.take(k as int);
            assert(t.last() == s@[k - 1]);
            assert(t.drop_last() =~= s@.take(k - 1));
        }
        k = k - 1;
    }
    proof {
        let t = s@.take(k as int);
        if k > 0 {
            assert(t.last() == s@[k - 1]);
        }
    }
    k
}

/// `s` without whitespace at either end (as `str::trim`).
pub fn trimmed(s: &str) -> (r: String)
    ensures
        r@ == trim(s@),
{
    let a = skip_leading_spaces(s);
    proof {
        lemma_leading_spaces_bound(s@);
    }
    let t = s.substring_char(a, s.unicode_len());
    let b = trailing_start(t);
    proof {
        lemma_trailing_spaces_bound(t@);
    }
    String::from_str(t.substring_char(0, b))
}

/// The decimal digits of `n`, most significant first, without leading zeros.
pub open spec fn decimal(n: nat) -> Seq<char>
    decreases n,
{
    if n < 10 {
        seq![digit(n)]
    } else {
        decimal(n / 10).push(digit(n % 10))
    }
}

pub open spec fn digit(d: nat) -> char {
    if d == 0 { '0' } else if d == 1 { '1' } else if d == 2 { '2' } else if d == 3 { '3' }
    else if d == 4 { '4' } else if d == 5 { '5' } else if d == 6 { '6' } else if d == 7 { '7' }
    else if d == 8 { '8' } else { '9' }
}

fn digit_str(d: u64) -> (r: &'static str)
    requires
        d < 10,
    ensures
        r@ == seq![digit(d as nat)],
{
    proof {
        reveal_strlit("0");
        reveal_strlit("1");
        reveal_strlit("2");
        reveal_strlit("3");
        reveal_strlit("4");
        reveal_strlit("5");
        reveal_strlit("6");
        reveal_strlit("7");
        reveal_strlit("8");
        reveal_strlit("9");
    }
    let r = if d == 0 { "0" } else if d == 1 { "1" } else if d == 2 { "2" } else if d == 3 { "3" }
    else if d == 4 { "4" } else if d == 5 { "5" } else if d == 6 { "6" } else if d == 7 { "7" }
    else if d == 8 { "8" } else { "9" };
    assert(r@ =~= seq![digit(d as nat)]);
    r
}

/// The decimal rendering of `n` (as `u64::to_string`).
pub fn decimal_string(n: u64) -> (r: String)
    ensures
        r@ == decimal(n as nat),
    decreases n,
{
    if n < 10 {
        String::from_str(digit_str(n))
    } else {
        let mut r = decimal_string(n / 10);
        r.append(digit_str(n % 10));
        assert(r@ =~= decimal(n as nat));
        r
    }
}

/// Whether two strings hold the same characters.
pub fn str_eq(a: &str, b: &str) -> (r: bool)
    ensures
        r == (a@ == b@),
{
    if a.unicode_len() != b.unicode_len() {
        return false;
    }
    let r = starts_with(a, b);
    assert(a@ =~= a@.subrange(0, b@.len() as int));
    r
}

pub proof fn lemma_join_push(ws: Seq<Seq<char>>, w: Seq<char>)
    requires
        ws.len() > 0,
    ensures
        join(ws.push(w)) == join(ws) + (seq![' '] + w),
    decreases ws.len(),
{
    if ws.len() == 1 {
        assert(ws.push(w).drop_first() =~= seq![w]);
        assert(join(seq![w]) == w);
        assert(ws.push(w)[0] == ws[0]);
    } else {
        assert(ws.push(w)[0] == ws[0]);
        assert(ws.push(w).drop_first() =~= ws.drop_first().push(w));
        lemma_join_push(ws.drop_first(), w);
        assert(join(ws.push(w)) =~= join(ws) + (seq![' '] + w));
    }
}

/// Position of the first occurrence of `p` in `s` at or after `i`, or the
/// length of `s` when there is none.
pub open spec fn first_at(s: Seq<char>, p: Seq<char>, i: int) -> int
    decreases s.len() - i,
{
    if i < 0 || i >= s.len() || i + p.len() > s.len() {
        s.len() as int
    } else if occurs_at(s, p, i) {
        i
    } else {
        first_at(s, p, i + 1)
    }
}

/// The part of `s` before the first occurrence of `p` (as the first item of
/// `str::split`), or all of `s`.
pub open spec fn before(s: Seq<char>, p: Seq<char>) -> Seq<char> {
    s.take(first_at(s, p, 0))
}

proof fn lemma_first_at_bound(s: Seq<char>, p: Seq<char>, i: int)
    requires
        0 <= i,
    ensures
        i <= first_at(s, p, i) <= s.len() || first_at(s, p, i) == s.len(),
        0 <= first_at(s, p, i) <= s.len(),
    decreases s.len() - i,
{
    if i < s.len() && i + p.len() <= s.len() && !occurs_at(s, p, i) {
        lemma_first_at_bound(s, p, i + 1);
    }
}

/// `s` up to the first occurrence of `p` (as `s.split(p).next()`).
pub fn prefix_before(s: &str, p: &str) -> (r: String)
    ensures
        r@ == before(s@, p@),
{
    let n = s.unicode_len();
    let m = p.unicode_len();
    let mut cut: usize = n;
    if m == 0 {
        assert(occurs_at(s@, p@, 0)) by {
            assert(s@.subrange(0, 0) =~= p@);
        }
        cut = 0;
        assert(n == 0 ==> first_at(s@, p@, 0) == 0);
    } else if m <= n {
        let mut i: usize = 0;
        let mut found = false;
        while !found && i <= n - m
            invariant
                n == s@.len(),
                m == p@.len(),
                1 <= m <= n,
                i <= n - m + 1,
                !found ==> first_at(s@, p@, 0) == first_at(s@, p@, i as int) && cut == n,
                found ==> first_at(s@, p@, 0) == cut && cut <= n,
            decreases n - m + 1 - i + (if found { 0int } else { 1int }),
        {
            if occurs_at_exec(s, p, i) {
                cut = i;
                found = true;
            } else {
                i = i + 1;
            }
        }
    }
    proof {
        lemma_first_at_bound(s@, p@, 0);
    }
    String::from_str(s.substring_char(0, cut))
}

/// The strings of `v` joined by single spaces (as `slice::join(" ")`).
pub fn join_strings(v: &Vec<String>) -> (r: String)
    ensures
        r@ == join(views(v@)),
{
    let mut r = String::new();
    let mut i: usize = 0;
    proof {
        reveal_strlit(" ");
        assert(views(v@).subrange(0, 0) =~= Seq::<Seq<char>>::empty());
    }
    while i < v.len()
        invariant
            i <= v@.len(),
            r@ == join(views(v@).subrange(0, i as int)),
        decreases v@.len() - i,
    {
        let ghost ws = views(v@).subrange(0, i as int);
        proof {
            assert(views(v@).subrange(0, i + 1) =~= ws.push(v@[i as int]@));
        }
        if i > 0 {
            r.append(" ");
            proof {
                reveal_strlit(" ");
                lemma_join_push(ws, v@[i as int]@);
            }
        } else {
            assert(ws.push(v@[0]@) =~= seq![v@[0]@]);
            assert(join(seq![v@[0]@]) == v@[0]@);
            assert(r@ =~= Seq::<char>::empty());
        }
        r.append(v[i].as_str());
        assert(r@ =~= join(views(v@).subrange(0, i + 1)));
        i = i + 1;
    }
    assert(views(v@).subrange(0, v@.len() as int) =~= views(v@));
    r
}

/// A copy of `v`.
pub fn copy_strings(v: &Vec<String>) -> (r: Vec<String>)
    ensures
        r@ == v@,
{
    let mut r: Vec<String> = Vec::new();
    let mut i: usize = 0;
    while i < v.len()
        invariant
            i <= v@.len(),
            r@ == v@.subrange(0, i as int),
        decreases v@.len() - i,
    {
        r.push(v[i].clone());
        assert(r@ =~= v@.subrange(0, i + 1));
        i = i + 1;
    }
    assert(r@ =~= v@);
    r
}

/// A copy of `o`.
pub fn copy_opt(o: &Option<String>) -> (r: Option<String>)
    ensures
        r == *o,
{
    match o {
        Some(s) => Some(s.clone()),
        None => None,
    }
}


/// No character of `s` is whitespace.
pub open spec fn no_space(s: Seq<char>) -> bool {
    forall|i: int| 0 <= i < s.len() ==> !is_space(#[trigger] s[i])
}

/// Every item of `ws` is a word.
pub open spec fn all_words(ws: Seq<Seq<char>>) -> bool {
    forall|i: int| 0 <= i < ws.len() ==> is_word(#[trigger] ws[i])
}

proof fn lemma_split_word(w: Seq<char>, s: Seq<char>, cur: Seq<char>)
    requires
        no_space(w),
    ensures
        split_from(w + s, cur) == split_from(s, cur + w),
    decreases w.len(),
{
    if w.len() == 0 {
        assert(w + s =~= s);
        assert(cur + w =~= cur);
    } else {
        let ws = w + s;
        assert(ws[0] == w[0]);
        assert(ws.drop_first() =~= w.drop_first() + s);
        assert(no_space(w.drop_first())) by {
            assert forall|i: int| 0 <= i < w.drop_first().len() implies !is_space(
                #[trigger] w.drop_first()[i],
            ) by {
                assert(w.drop_first()[i] == w[i + 1]);
            }
        }
        lemma_split_word(w.drop_first(), s, cur.push(w[0]));
        assert(cur.push(w[0]) + w.drop_first() =~= cur + w);
    }
}

proof fn lemma_split_space(s: Seq<char>, cur: Seq<char>)
    requires
        cur.len() > 0,
    ensures
        split_from(seq![' '] + s, cur) == seq![cur] + split_from(s, seq![]),
{
    let t = seq![' '] + s;
    assert(t[0] == ' ');
    assert(is_space(' '));
    assert(t.drop_first() =~= s);
}

/// Splitting words joined by single spaces gives the words back.
pub proof fn lemma_tokens_join(ws: Seq<Seq<char>>)
    requires
        all_words(ws),
    ensures
        tokens(join(ws)) == ws,
    decreases ws.len(),
{
    if ws.len() == 0 {
        assert(tokens(join(ws)) =~= ws);
    } else if ws.len() == 1 {
        assert(is_word(ws[0]));
        lemma_split_word(ws[0], seq![], seq![]);
        assert(ws[0] + Seq::<char>::empty() =~= ws[0]);
        assert(Seq::<char>::empty() + ws[0] =~= ws[0]);
        assert(seq![ws[0]] =~= ws);
    } else {
        let rest = ws.drop_first();
        assert(all_words(rest)) by {
            assert forall|i: int| 0 <= i < rest.len() implies is_word(#[trigger] rest[i]) by {
                assert(rest[i] == ws[i + 1]);
            }
        }
        lemma_tokens_join(rest);
        assert(is_word(ws[0]));
        lemma_split_word(ws[0], seq![' '] + join(rest), seq![]);
        assert(Seq::<char>::empty() + ws[0] =~= ws[0]);
        lemma_split_space(join(rest), ws[0]);
        assert(seq![ws[0]] + rest =~= ws);
    }
}

proof fn lemma_split_words_from(s: Seq<char>, cur: Seq<char>)
    requires
        no_space(cur),
    ensures
        all_words(split_from(s, cur)),
    decreases s.len(),
{
    if s.len() == 0 {
    } else if is_space(s[0]) {
        lemma_split_words_from(s.drop_first(), seq![]);
        let head: Seq<Seq<char>> = if cur.len() > 0 { seq![cur] } else { seq![] };
        let r = head + split_from(s.drop_first(), seq![]);
        assert forall|i: int| 0 <= i < r.len() implies is_word(#[trigger] r[i]) by {
            if i >= head.len() {
                assert(r[i] == split_from(s.drop_first(), seq![])[i - head.len()]);
            }
        }
    } else {
        let c2 = cur.push(s[0]);
        assert(no_space(c2)) by {
            assert forall|i: int| 0 <= i < c2.len() implies !is_space(#[trigger] c2[i]) by {
                if i < cur.len() {
                    assert(c2[i] == cur[i]);
                }
            }
        }
        lemma_split_words_from(s.drop_first(), c2);
    }
}

/// The tokens of any text are words.
pub proof fn lemma_tokens_are_words(s: Seq<char>)
    ensures
        all_words(tokens(s)),
{
    lemma_split_words_from(s, seq![]);
}

/// Joining a non-empty sequence of two parts puts one space between them.
pub proof fn lemma_join_append(a: Seq<Seq<char>>, b: Seq<Seq<char>>)
    requires
        a.len() > 0,
        b.len() > 0,
    ensures
        join(a + b) == join(a) + (seq![' '] + join(b)),
    decreases b.len(),
{
    if b.len() == 1 {
        assert(a + b =~= a.push(b[0]));
        lemma_join_push(a, b[0]);
        assert(join(b) == b[0]);
    } else {
        let b0 = b.drop_last();
        assert(a + b =~= (a + b0).push(b.last()));
        lemma_join_push(a + b0, b.last());
        lemma_join_append(a, b0);
        assert(b =~= b0.push(b.last()));
        lemma_join_push(b0, b.last());
        assert(join(a + b) =~= join(a) + (seq![' '] + join(b)));
    }
}


/// Splits `s` at newlines, `cur` being the line read so far.
pub open spec fn lines_from(s: Seq<char>, cur: Seq<char>) -> Seq<Seq<char>>
    decreases s.len(),
{
    if s.len() == 0 {
        seq![cur]
    } else if s[0] == '\n' {
        seq![cur] + lines_from(s.drop_first(), seq![])
    } else {
        lines_from(s.drop_first(), cur.push(s[0]))
    }
}

/// The lines of `s`: the pieces between newline characters.
pub open spec fn lines(s: Seq<char>) -> Seq<Seq<char>> {
    lines_from(s, seq![])
}

/// The lines of `s`, split at each newline.
pub fn split_lines(s: &str) -> (r: Vec<String>)
    ensures
        views(r@) == lines(s@),
{
    let n = s.unicode_len();
    let mut out: Vec<String> = Vec::new();
    let mut start: usize = 0;
    let mut i: usize = 0;
    proof {
        assert(s@.skip(0) =~= s@);
        assert(s@.subrange(0, 0) =~= Seq::<char>::empty());
        assert(views(out@) + lines_from(s@.skip(0), s@.subrange(0, 0)) =~= lines(s@));
    }
    while i < n
        invariant
            n == s@.len(),
            start <= i <= n,
            lines(s@) == views(out@) + lines_from(s@.skip(i as int), s@.subrange(start as int, i as int)),
        decreases n - i,
    {
        let c = s.get_char(i);
        let ghost cur = s@.subrange(start as int, i as int);
        let ghost rest = s@.skip(i as int);
        proof {
            assert(rest[0] == c);
            assert(rest.drop_first() =~= s@.skip(i + 1));
        }
        if c == '\n' {
            let w = String::from_str(s.substring_char(start, i));
            proof {
                lemma_views_push(out@, w);
                assert(views(out@) + (seq![cur] + lines_from(rest.drop_first(), seq![]))
                    =~= views(out@).push(w@) + lines_from(rest.drop_first(), seq![]));
                assert(s@.subrange(i + 1, i + 1) =~= Seq::<char>::empty());
            }
            out.push(w);
            start = i + 1;
        } else {
            assert(cur.push(c) =~= s@.subrange(start as int, i + 1));
        }
        i = i + 1;
    }
    proof {
        assert(s@.skip(n as int) =~= Seq::<char>::empty());
    }
    let w = String::from_str(s.substring_char(start, n));
    proof {
        lemma_views_push(out@, w);
        assert(views(out@) + seq![w@] =~= views(out@).push(w@));
    }
    out.push(w);
    out
}

} // verus!
