//! Character-level text helpers for the line-oriented job formats: splitting
//! on a separator, blank-line detection, trimming, and locating a character.
//! Every executable function is specified against a recursive spec-level
//! definition over the string's view (`Seq<char>`).

use vstd::prelude::*;

verus! {

/// The whitespace characters this crate recognises when it trims text or
/// decides that a line is blank.
pub open spec fn is_space(c: char) -> bool {
    c == ' ' || c == '\t' || c == '\r' || c == '\n'
}

/// A sequence is blank when every character is whitespace (so the empty
/// sequence is blank).
pub open spec fn blank(s: Seq<char>) -> bool {
    forall|i: int| 0 <= i < s.len() ==> is_space(s[i])
}

fn is_space_char(c: char) -> (r: bool)
    ensures
        r == is_space(c),
{
    c == ' ' || c == '\t' || c == '\r' || c == '\n'
}

/// Returns whether the line consists of whitespace alone.
pub fn is_blank(s: &str) -> (r: bool)
    ensures
        r == blank(s@),
{
    let n = s.unicode_len();
    let mut i: usize = 0;
    while i < n
        invariant
            0 <= i <= n,
            n == s@.len(),
            forall|j: int| 0 <= j < i ==> is_space(s@[j]),
        decreases n - i,
    {
        if !is_space_char(s.get_char(i)) {
            return false;
        }
        i = i + 1;
    }
    true
}

/// The fields obtained by cutting `s` at every occurrence of `sep`. The
/// separator itself appears in no field; `n` separators give `n + 1` fields,
/// so the result is never empty and splitting the empty sequence gives one
/// empty field.
pub open spec fn split_on(s: Seq<char>, sep: char) -> Seq<Seq<char>>
    decreases s.len(),
{
    if s.len() == 0 {
        seq![Seq::<char>::empty()]
    } else {
        let rest = split_on(s.drop_first(), sep);
        if s[0] == sep {
            seq![Seq::<char>::empty()].add(rest)
        } else {
            seq![seq![s[0]].add(rest[0])].add(rest.drop_first())
        }
    }
}

pub proof fn lemma_split_on_len(s: Seq<char>, sep: char)
    ensures
        split_on(s, sep).len() >= 1,
    decreases s.len(),
{
    if s.len() > 0 {
        lemma_split_on_len(s.drop_first(), sep);
    }
}

/// Splitting a sequence that starts with a separator-free prefix `p`
/// followed by one separator yields `p` as the first field and the split of
/// the remainder as the other fields.
proof fn lemma_split_on_head(p: Seq<char>, sep: char, t: Seq<char>)
    requires
        forall|j: int| 0 <= j < p.len() ==> p[j] != sep,
    ensures
        split_on(p + seq![sep] + t, sep) == seq![p] + split_on(t, sep),
    decreases p.len(),
{
    let s = p + seq![sep] + t;
    if p.len() == 0 {
        assert(s[0] == sep);
        assert(s.drop_first() =~= t);
        assert(split_on(s, sep) =~~= seq![p] + split_on(t, sep));
    } else {
        assert(s[0] == p[0]);
        assert(s.drop_first() =~= p.drop_first() + seq![sep] + t);
        lemma_split_on_head(p.drop_first(), sep, t);
        let rest = split_on(s.drop_first(), sep);
        assert(rest == seq![p.drop_first()] + split_on(t, sep));
        assert(rest[0] == p.drop_first());
        assert(seq![s[0]].add(rest[0]) =~= p);
        assert(rest.drop_first() =~= split_on(t, sep));
        assert(split_on(s, sep) =~~= seq![p] + split_on(t, sep));
    }
}

/// A sequence without the separator splits into itself as the only field.
proof fn lemma_split_on_whole(p: Seq<char>, sep: char)
    requires
        forall|j: int| 0 <= j < p.len() ==> p[j] != sep,
    ensures
        split_on(p, sep) == seq![p],
    decreases p.len(),
{
    if p.len() == 0 {
        assert(split_on(p, sep) =~~= seq![p]);
    } else {
        lemma_split_on_whole(p.drop_first(), sep);
        let rest = split_on(p.drop_first(), sep);
        assert(seq![p[0]].add(rest[0]) =~= p);
        assert(split_on(p, sep) =~~= seq![p]);
    }
}

/// Splits `s` at every occurrence of `sep`, as `split_on` describes.
pub fn split_char(s: &str, sep: char) -> (fields: Vec<String>)
    ensures
        fields.deep_view() == split_on(s@, sep),
{
    let n = s.unicode_len();
    let mut fields: Vec<String> = Vec::new();
    let mut start: usize = 0;
    let mut i: usize = 0;
    proof {
        assert(fields.deep_view() =~= Seq::<Seq<char>>::empty());
        assert(s@.skip(0) =~= s@);
        assert(split_on(s@, sep) =~= fields.deep_view() + split_on(s@.skip(0), sep));
    }
    while i < n
        invariant
            0 <= start <= i <= n,
            n == s@.len(),
            forall|j: int| start <= j < i ==> s@[j] != sep,
            split_on(s@, sep) == fields.deep_view() + split_on(s@.skip(start as int), sep),
        decreases n - i,
    {
        let c = s.get_char(i);
        if c == sep {
            let field = String::from_str(s.substring_char(start, i));
            proof {
                let p = s@.subrange(start as int, i as int);
                assert(s@.skip(start as int) =~= p + seq![sep] + s@.skip(i + 1));
                lemma_split_on_head(p, sep, s@.skip(i + 1));
                assert((fields.deep_view() + (seq![p] + split_on(s@.skip(i + 1), sep)))
                    =~= (fields.deep_view().push(field@) + split_on(s@.skip(i + 1), sep)));
            }
            let ghost old_fields = fields.deep_view();
            fields.push(field);
            proof {
                assert(fields.deep_view() =~= old_fields.push(s@.subrange(
                    start as int,
                    i as int,
                )));
            }
            start = i + 1;
        }
        i = i + 1;
    }
    let field = String::from_str(s.substring_char(start, n));
    proof {
        let p = s@.subrange(start as int, n as int);
        assert(s@.skip(start as int) =~= p);
        lemma_split_on_whole(p, sep);
    }
    let ghost old_fields = fields.deep_view();
    fields.push(field);
    proof {
        assert(fields.deep_view() =~= old_fields.push(s@.subrange(start as int, n as int)));
        assert(fields.deep_view() =~= split_on(s@, sep));
    }
    fields
}

/// `s` with leading whitespace removed.
pub open spec fn trim_front(s: Seq<char>) -> Seq<char>
    decreases s.len(),
{
    if s.len() > 0 && is_space(s[0]) {
        trim_front(s.drop_first())
    } else {
        s
    }
}

/// `s` with trailing whitespace removed.
pub open spec fn trim_back(s: Seq<char>) -> Seq<char>
    decreases s.len(),
{
    if s.len() > 0 && is_space(s[s.len() - 1]) {
        trim_back(s.drop_last())
    } else {
        s
    }
}

/// `s` with both leading and trailing whitespace removed.
pub open spec fn trimmed(s: Seq<char>) -> Seq<char> {
    trim_back(trim_front(s))
}

proof fn lemma_trim_front_skip(s: Seq<char>, k: int)
    requires
        0 <= k <= s.len(),
        forall|j: int| 0 <= j < k ==> is_space(s[j]),
        k == s.len() || !is_space(s[k]),
    ensures
        trim_front(s) == s.skip(k),
    decreases k,
{
    if k == 0 {
        assert(s.skip(0) =~= s);
    } else {
        lemma_trim_front_skip(s.drop_first(), k - 1);
        assert(s.drop_first().skip(k - 1) =~= s.skip(k));
    }
}

proof fn lemma_trim_back_take(s: Seq<char>, h: int)
    requires
        0 <= h <= s.len(),
        forall|j: int| h <= j < s.len() ==> is_space(s[j]),
        h == 0 || !is_space(s[h - 1]),
    ensures
        trim_back(s) == s.take(h),
    decreases s.len() - h,
{
    if h == s.len() {
        assert(s.take(h) =~= s);
    } else {
        lemma_trim_back_take(s.drop_last(), h);
        assert(s.drop_last().take(h) =~= s.take(h));
    }
}

/// Returns `s` without leading or trailing whitespace, as `trimmed`
/// describes.
pub fn trim_str(s: &str) -> (r: String)
    ensures
        r@ == trimmed(s@),
{
    let n = s.unicode_len();
    let mut lo: usize = 0;
    while lo < n && is_space_char(s.get_char(lo))
        invariant
            0 <= lo <= n,
            n == s@.len(),
            forall|j: int| 0 <= j < lo ==> is_space(s@[j]),
        decreases n - lo,
    {
        lo = lo + 1;
    }
    let mut hi: usize = n;
    while hi > lo && is_space_char(s.get_char(hi - 1))
        invariant
            lo <= hi <= n,
            n == s@.len(),
            forall|j: int| 0 <= j < lo ==> is_space(s@[j]),
            lo == n || !is_space(s@[lo as int]),
            forall|j: int| hi <= j < n ==> is_space(s@[j]),
        decreases hi,
    {
        hi = hi - 1;
    }
    proof {
        lemma_trim_front_skip(s@, lo as int);
        let t = s@.skip(lo as int);
        lemma_trim_back_take(t, hi - lo);
        assert(t.take(hi - lo) =~= s@.subrange(lo as int, hi as int));
    }
    String::from_str(s.substring_char(lo, hi))
}

/// The index of the first occurrence of `c` in `s`, or `s.len()` when `c`
/// does not occur.
pub open spec fn find_char(s: Seq<char>, c: char) -> int
    decreases s.len(),
{
    if s.len() == 0 {
        0
    } else if s[0] == c {
        0
    } else {
        1 + find_char(s.drop_first(), c)
    }
}

pub proof fn lemma_find_char(s: Seq<char>, c: char)
    ensures
        0 <= find_char(s, c) <= s.len(),
        find_char(s, c) < s.len() ==> s[find_char(s, c)] == c,
        forall|j: int| 0 <= j < find_char(s, c) ==> s[j] != c,
        find_char(s, c) == s.len() ==> forall|j: int| 0 <= j < s.len() ==> s[j] != c,
    decreases s.len(),
{
    if s.len() > 0 && s[0] != c {
        lemma_find_char(s.drop_first(), c);
        assert forall|j: int| 0 <= j < find_char(s, c) implies s[j] != c by {
            if j >= 1 {
                assert(s[j] == s.drop_first()[j - 1]);
            }
        }
        if find_char(s, c) == s.len() {
            assert forall|j: int| 0 <= j < s.len() implies s[j] != c by {
                if j >= 1 {
                    assert(s[j] == s.drop_first()[j - 1]);
                }
            }
        }
    }
}

/// Returns the index of the first occurrence of `c` in `s`, or `None` when
/// `c` does not occur.
pub fn find_in(s: &str, c: char) -> (r: Option<usize>)
    ensures
        match r {
            Some(i) => i == find_char(s@, c) && i < s@.len(),
            None => find_char(s@, c) == s@.len(),
        },
{
    let n = s.unicode_len();
    let mut i: usize = 0;
    while i < n
        invariant
            0 <= i <= n,
            n == s@.len(),
            forall|j: int| 0 <= j < i ==> s@[j] != c,
        decreases n - i,
    {
        if s.get_char(i) == c {
            proof {
                lemma_find_char(s@, c);
                let f = find_char(s@, c);
                if f < i {
                    assert(s@[f] == c);
                } else if f > i {
                    assert(s@[i as int] != c);
                }
            }
            return Some(i);
        }
        i = i + 1;
    }
    proof {
        lemma_find_char(s@, c);
        let f = find_char(s@, c);
        if f < n {
            assert(s@[f] == c);
        }
    }
    None
}

/// `s` with every trailing `/` removed.
pub open spec fn strip_slashes(s: Seq<char>) -> Seq<char>
    decreases s.len(),
{
    if s.len() > 0 && s[s.len() - 1] == '/' {
        strip_slashes(s.drop_last())
    } else {
        s
    }
}

/// The characters of `s` after its last `/`; all of `s` when `s` holds no
/// `/`, and empty when `s` ends in `/`.
pub open spec fn last_segment(s: Seq<char>) -> Seq<char>
    decreases s.len(),
{
    if s.len() == 0 {
        s
    } else if s[s.len() - 1] == '/' {
        Seq::<char>::empty()
    } else {
        last_segment(s.drop_last()).push(s[s.len() - 1])
    }
}

proof fn lemma_strip_slashes_take(s: Seq<char>, e: int)
    requires
        0 <= e <= s.len(),
        forall|j: int| e <= j < s.len() ==> s[j] == '/',
        e == 0 || s[e - 1] != '/',
    ensures
        strip_slashes(s) == s.take(e),
    decreases s.len() - e,
{
    if e == s.len() {
        assert(s.take(e) =~= s);
    } else {
        lemma_strip_slashes_take(s.drop_last(), e);
        assert(s.drop_last().take(e) =~= s.take(e));
    }
}

proof fn lemma_last_segment_skip(t: Seq<char>, b: int)
    requires
        0 <= b <= t.len(),
        forall|j: int| b <= j < t.len() ==> t[j] != '/',
        b == 0 || t[b - 1] == '/',
    ensures
        last_segment(t) == t.skip(b),
    decreases t.len() - b,
{
    if b == t.len() {
        assert(t.skip(b) =~= Seq::<char>::empty());
        if b == 0 {
            assert(last_segment(t) =~= t.skip(b));
        }
    } else {
        lemma_last_segment_skip(t.drop_last(), b);
        assert(last_segment(t.drop_last()).push(t[t.len() - 1]) =~= t.skip(b));
    }
}

/// Returns the final `/`-separated segment of `s` once trailing slashes are
/// stripped, or `None` when nothing remains (an empty path, or one made of
/// slashes alone).
pub fn last_path_segment(s: &str) -> (r: Option<String>)
    ensures
        match r {
            Some(seg) => strip_slashes(s@).len() > 0 && seg@ == last_segment(strip_slashes(s@)),
            None => strip_slashes(s@).len() == 0,
        },
{
    let n = s.unicode_len();
    let mut e: usize = n;
    while e > 0 && s.get_char(e - 1) == '/'
        invariant
            0 <= e <= n,
            n == s@.len(),
            forall|j: int| e <= j < n ==> s@[j] == '/',
        decreases e,
    {
        e = e - 1;
    }
    proof {
        lemma_strip_slashes_take(s@, e as int);
    }
    if e == 0 {
        proof {
            assert(s@.take(0) =~= Seq::<char>::empty());
        }
        return None;
    }
    let mut b: usize = e;
    while b > 0 && s.get_char(b - 1) != '/'
        invariant
            0 <= b <= e <= n,
            n == s@.len(),
            forall|j: int| b <= j < e ==> s@[j] != '/',
        decreases b,
    {
        b = b - 1;
    }
    proof {
        let t = s@.take(e as int);
        lemma_last_segment_skip(t, b as int);
        assert(t.skip(b as int) =~= s@.subrange(b as int, e as int));
    }
    Some(String::from_str(s.substring_char(b, e)))
}

} // verus!
