//! Character-level string helpers, each verified against a direct
//! mathematical statement over `Seq<char>` views.

use vstd::prelude::*;

verus! {

/// Exact character-wise equality of two string slices.
pub fn str_eq(a: &str, b: &str) -> (r: bool)
    ensures
        r == (a@ == b@),
{
    let alen = a.unicode_len();
    let blen = b.unicode_len();
    if alen != blen {
        assert(a@ != b@) by {
            assert(a@.len() != b@.len());
        }
        return false;
    }
    let mut i: usize = 0;
    while i < alen
        invariant
            i <= alen,
            alen == a@.len(),
            alen == b@.len(),
            forall|j: int| 0 <= j < i ==> a@[j] == b@[j],
        decreases alen - i,
    {
        if a.get_char(i) != b.get_char(i) {
            return false;
        }
        i += 1;
    }
    assert(a@ =~= b@);
    true
}

/// Copies the character range `[from, to)` of `s` into an owned string.
pub fn substring(s: &str, from: usize, to: usize) -> (r: String)
    requires
        from <= to <= s@.len(),
    ensures
        r@ == s@.subrange(from as int, to as int),
{
    s.substring_char(from, to).to_owned()
}

/// True when `s` begins with the characters of `p`.
pub fn starts_with_str(s: &str, p: &str) -> (r: bool)
    ensures
        r == (p@.len() <= s@.len() && s@.subrange(0, p@.len() as int) == p@),
{
    let plen = p.unicode_len();
    let slen = s.unicode_len();
    if plen > slen {
        return false;
    }
    str_eq(s.substring_char(0, plen), p)
}

/// Index of the first occurrence of `c` in `s`, if any.
pub open spec fn find_char(s: Seq<char>, c: char) -> Option<int>
    decreases s.len(),
{
    if s.len() == 0 {
        None
    } else if s[0] == c {
        Some(0int)
    } else {
        match find_char(s.skip(1), c) {
            Some(i) => Some(i + 1),
            None => None,
        }
    }
}

/// What `find_char` returns: the least index holding `c`, or nothing.
pub proof fn lemma_find_char(s: Seq<char>, c: char)
    ensures
        match find_char(s, c) {
            Some(i) => 0 <= i < s.len() && s[i] == c && forall|j: int| 0 <= j < i ==> s[j] != c,
            None => forall|j: int| 0 <= j < s.len() ==> s[j] != c,
        },
    decreases s.len(),
{
    if s.len() > 0 && s[0] != c {
        lemma_find_char(s.skip(1), c);
        match find_char(s.skip(1), c) {
            Some(i) => {
                assert(s.skip(1)[i] == c);
                assert(s[i + 1] == s.skip(1)[i]);
                assert forall|j: int| 0 <= j < i + 1 implies s[j] != c by {
                    if j > 0 {
                        assert(s[j] == s.skip(1)[j - 1]);
                    }
                }
            },
            None => {
                assert forall|j: int| 0 <= j < s.len() implies s[j] != c by {
                    if j > 0 {
                        assert(s[j] == s.skip(1)[j - 1]);
                    }
                }
            },
        }
    }
}

/// A position holding `c` with none before it is what `find_char` finds.
pub proof fn lemma_find_char_is(s: Seq<char>, c: char, i: int)
    requires
        0 <= i < s.len(),
        s[i] == c,
        forall|j: int| 0 <= j < i ==> s[j] != c,
    ensures
        find_char(s, c) == Some(i),
    decreases i,
{
    if i == 0 {
        assert(s[0] == c);
    } else {
        assert(s[0] != c);
        let s1 = s.skip(1);
        assert(s1[i - 1] == s[i]);
        assert forall|j: int| 0 <= j < i - 1 implies s1[j] != c by {
            assert(s1[j] == s[j + 1]);
        }
        lemma_find_char_is(s1, c, i - 1);
    }
}

/// Finds the first occurrence of `c` in `s`.
pub fn find_char_at(s: &str, c: char) -> (r: Option<usize>)
    ensures
        r == match find_char(s@, c) {
            Some(i) => Some(i as usize),
            None => None::<usize>,
        },
{
    let len = s.unicode_len();
    let mut i: usize = 0;
    while i < len
        invariant
            i <= len,
            len == s@.len(),
            forall|j: int| 0 <= j < i ==> s@[j] != c,
        decreases len - i,
    {
        if s.get_char(i) == c {
            proof {
                lemma_find_char_is(s@, c, i as int);
            }
            return Some(i);
        }
        i += 1;
    }
    proof {
        lemma_find_char(s@, c);
        if let Some(k) = find_char(s@, c) {
            assert(s@[k] != c);
        }
    }
    None
}

/// Splitting at the first occurrence of `c`: the part before it and the
/// part after it, or nothing when `c` does not occur.
pub open spec fn spec_split2(s: Seq<char>, c: char) -> Option<(Seq<char>, Seq<char>)> {
    match find_char(s, c) {
        None => None,
        Some(i) => Some((s.subrange(0, i), s.subrange(i + 1, s.len() as int))),
    }
}

/// Splits `s` at the first occurrence of `c` into the text before and after it.
pub fn split2(s: &str, c: char) -> (r: Option<(String, String)>)
    ensures
        match r {
            Some(p) => spec_split2(s@, c) == Some((p.0@, p.1@)),
            None => spec_split2(s@, c) is None,
        },
{
    proof {
        lemma_find_char(s@, c);
    }
    match find_char_at(s, c) {
        None => None,
        Some(i) => {
            let len = s.unicode_len();
            Some((substring(s, 0, i), substring(s, i + 1, len)))
        },
    }
}

/// The segments of `s` between occurrences of `c`, in order; always at
/// least one segment, matching how `str::split` treats an empty string.
pub open spec fn spec_split(s: Seq<char>, c: char) -> Seq<Seq<char>>
    decreases s.len(),
{
    if s.len() == 0 {
        seq![Seq::<char>::empty()]
    } else if s[0] == c {
        seq![Seq::<char>::empty()] + spec_split(s.skip(1), c)
    } else {
        let r = spec_split(s.skip(1), c);
        seq![seq![s[0]] + r[0]] + r.skip(1)
    }
}

pub proof fn lemma_split_len(s: Seq<char>, c: char)
    ensures
        spec_split(s, c).len() >= 1,
    decreases s.len(),
{
    if s.len() > 0 {
        lemma_split_len(s.skip(1), c);
    }
}

/// A string without the separator is one single segment.
pub proof fn lemma_split_no_sep(s: Seq<char>, c: char)
    requires
        forall|j: int| 0 <= j < s.len() ==> s[j] != c,
    ensures
        spec_split(s, c) =~= seq![s],
    decreases s.len(),
{
    if s.len() > 0 {
        assert forall|j: int| 0 <= j < s.skip(1).len() implies s.skip(1)[j] != c by {
            assert(s.skip(1)[j] == s[j + 1]);
        }
        lemma_split_no_sep(s.skip(1), c);
        let r = spec_split(s.skip(1), c);
        assert(r =~= seq![s.skip(1)]);
        assert(r.len() == 1);
        assert(r.skip(1) =~= Seq::<Seq<char>>::empty());
        assert(s[0] != c);
        assert(seq![s[0]] + r[0] =~= s);
        assert(seq![s[0]] + r[0] == s);
        assert(spec_split(s, c) == seq![seq![s[0]] + r[0]] + r.skip(1));
        assert(seq![seq![s[0]] + r[0]] + r.skip(1) =~= seq![s]);
    } else {
        assert(s =~= Seq::<char>::empty());
        assert(s == Seq::<char>::empty());
    }
}

/// Peeling one separator off the front: the segment before the first `c`
/// stands alone, the rest splits on its own.
pub proof fn lemma_split_step(pre: Seq<char>, post: Seq<char>, c: char)
    requires
        forall|j: int| 0 <= j < pre.len() ==> pre[j] != c,
    ensures
        spec_split(pre + seq![c] + post, c) =~= seq![pre] + spec_split(post, c),
    decreases pre.len(),
{
    let s = pre + seq![c] + post;
    if pre.len() == 0 {
        assert(s.len() > 0);
        assert(s[0] == c);
        assert(s.skip(1) =~= post);
        assert(pre =~= Seq::<char>::empty());
        assert(spec_split(s, c) == seq![Seq::<char>::empty()] + spec_split(post, c));
    } else {
        assert(s[0] == pre[0]);
        assert(s[0] != c);
        let pre1 = pre.skip(1);
        assert forall|j: int| 0 <= j < pre1.len() implies pre1[j] != c by {
            assert(pre1[j] == pre[j + 1]);
        }
        lemma_split_step(pre1, post, c);
        assert(s.skip(1) =~= pre1 + seq![c] + post);
        let r = spec_split(s.skip(1), c);
        assert(r =~= seq![pre1] + spec_split(post, c));
        lemma_split_len(post, c);
        assert(r[0] == pre1);
        assert(seq![s[0]] + r[0] =~= pre);
        assert(seq![s[0]] + r[0] == pre);
        assert(r.skip(1) =~= spec_split(post, c));
        assert(spec_split(s, c) == seq![seq![s[0]] + r[0]] + r.skip(1));
    }
}

/// Splits `s` on every occurrence of `c`.
pub fn split_all(s: &str, c: char) -> (parts: Vec<String>)
    ensures
        parts.deep_view() =~= spec_split(s@, c),
{
    let len = s.unicode_len();
    let mut parts: Vec<String> = Vec::new();
    proof {
        assert(s@.skip(0) =~= s@);
        assert(parts.deep_view() =~= Seq::<Seq<char>>::empty());
    }
    let mut start: usize = 0;
    let mut i: usize = 0;
    while i < len
        invariant
            start <= i <= len,
            len == s@.len(),
            spec_split(s@, c) =~= parts.deep_view() + spec_split(s@.skip(start as int), c),
            forall|j: int| start <= j < i ==> s@[j] != c,
        decreases len - i,
    {
        if s.get_char(i) == c {
            let seg = substring(s, start, i);
            let ghost old_dv = parts.deep_view();
            proof {
                let tail = s@.skip(start as int);
                let pre = s@.subrange(start as int, i as int);
                let post = s@.skip(i as int + 1);
                assert(tail =~= pre + seq![c] + post);
                assert forall|j: int| 0 <= j < pre.len() implies pre[j] != c by {
                    assert(pre[j] == s@[start + j]);
                }
                lemma_split_step(pre, post, c);
                assert(seg@ == pre);
            }
            parts.push(seg);
            proof {
                assert(parts.deep_view() =~= old_dv + seq![seg@]);
            }
            start = i + 1;
        }
        i += 1;
    }
    let seg = substring(s, start, len);
    let ghost old_dv = parts.deep_view();
    proof {
        let tail = s@.skip(start as int);
        assert forall|j: int| 0 <= j < tail.len() implies tail[j] != c by {
            assert(tail[j] == s@[start + j]);
        }
        lemma_split_no_sep(tail, c);
        assert(tail =~= seg@);
    }
    parts.push(seg);
    proof {
        assert(parts.deep_view() =~= old_dv + seq![seg@]);
    }
    parts
}

/// A decimal digit.
pub open spec fn is_digit(c: char) -> bool {
    '0' <= c && c <= '9'
}

pub open spec fn all_digits(s: Seq<char>) -> bool {
    forall|i: int| 0 <= i < s.len() ==> is_digit(#[trigger] s[i])
}

pub open spec fn digit_val(c: char) -> int {
    (c as int) - ('0' as int)
}

/// The value of a decimal digit string, most significant digit first.
pub open spec fn dec_val(s: Seq<char>) -> int
    decreases s.len(),
{
    if s.len() == 0 {
        0
    } else {
        dec_val(s.drop_last()) * 10 + digit_val(s.last())
    }
}

pub proof fn lemma_dec_val_extend(s: Seq<char>, i: int)
    requires
        0 <= i < s.len(),
    ensures
        dec_val(s.take(i + 1)) == dec_val(s.take(i)) * 10 + digit_val(s[i]),
{
    assert(s.take(i + 1).drop_last() =~= s.take(i));
    assert(s.take(i + 1).last() == s[i]);
}

/// A digit string's value is never negative.
pub proof fn lemma_dec_val_nonneg(s: Seq<char>)
    requires
        all_digits(s),
    ensures
        dec_val(s) >= 0,
    decreases s.len(),
{
    if s.len() > 0 {
        assert(all_digits(s.drop_last()));
        lemma_dec_val_nonneg(s.drop_last());
        assert(is_digit(s.last()));
    }
}

/// Extending a digit string never lowers its value.
pub proof fn lemma_dec_val_mono(s: Seq<char>, i: int)
    requires
        0 <= i <= s.len(),
        all_digits(s),
    ensures
        dec_val(s.take(i)) <= dec_val(s),
    decreases s.len() - i,
{
    if i < s.len() {
        lemma_dec_val_extend(s, i);
        assert(all_digits(s.take(i)));
        lemma_dec_val_nonneg(s.take(i));
        assert(is_digit(s[i]));
        lemma_dec_val_mono(s, i + 1);
    } else {
        assert(s.take(i) =~= s);
    }
}

/// Parses a decimal number; `None` exactly when the string is empty, holds
/// a non-digit, or its value does not fit in `usize`.
pub fn parse_usize(s: &str) -> (r: Option<usize>)
    ensures
        match r {
            Some(v) => s@.len() > 0 && all_digits(s@) && v == dec_val(s@),
            None => s@.len() == 0 || !all_digits(s@) || dec_val(s@) > usize::MAX,
        },
{
    let len = s.unicode_len();
    if len == 0 {
        return None;
    }
    let mut acc: usize = 0;
    let mut i: usize = 0;
    while i < len
        invariant
            i <= len,
            len == s@.len(),
            forall|j: int| 0 <= j < i ==> is_digit(#[trigger] s@[j]),
            acc == dec_val(s@.take(i as int)),
        decreases len - i,
    {
        let c = s.get_char(i);
        if c < '0' || c > '9' {
            return None;
        }
        let d = (c as u32 - '0' as u32) as usize;
        proof {
            lemma_dec_val_extend(s@, i as int);
        }
        let shifted = match acc.checked_mul(10) {
            Some(x) => x,
            None => {
                proof {
                    if all_digits(s@) {
                        lemma_dec_val_mono(s@, i as int + 1);
                    }
                }
                return None;
            },
        };
        let next = match shifted.checked_add(d) {
            Some(x) => x,
            None => {
                proof {
                    if all_digits(s@) {
                        lemma_dec_val_mono(s@, i as int + 1);
                    }
                }
                return None;
            },
        };
        acc = next;
        i += 1;
    }
    proof {
        assert(s@.take(len as int) =~= s@);
    }
    Some(acc)
}

/// Parses a decimal number into a `u64`.
pub fn parse_u64(s: &str) -> (r: Option<u64>)
    ensures
        match r {
            Some(v) => s@.len() > 0 && all_digits(s@) && v == dec_val(s@),
            None => s@.len() == 0 || !all_digits(s@) || dec_val(s@) > u64::MAX,
        },
{
    let len = s.unicode_len();
    if len == 0 {
        return None;
    }
    let mut acc: u64 = 0;
    let mut i: usize = 0;
    while i < len
        invariant
            i <= len,
            len == s@.len(),
            forall|j: int| 0 <= j < i ==> is_digit(#[trigger] s@[j]),
            acc == dec_val(s@.take(i as int)),
        decreases len - i,
    {
        let c = s.get_char(i);
        if c < '0' || c > '9' {
            return None;
        }
        let d = (c as u32 - '0' as u32) as u64;
        proof {
            lemma_dec_val_extend(s@, i as int);
        }
        let shifted = match acc.checked_mul(10) {
            Some(x) => x,
            None => {
                proof {
                    if all_digits(s@) {
                        lemma_dec_val_mono(s@, i as int + 1);
                    }
                }
                return None;
            },
        };
        let next = match shifted.checked_add(d) {
            Some(x) => x,
            None => {
                proof {
                    if all_digits(s@) {
                        lemma_dec_val_mono(s@, i as int + 1);
                    }
                }
                return None;
            },
        };
        acc = next;
        i += 1;
    }
    proof {
        assert(s@.take(len as int) =~= s@);
    }
    Some(acc)
}

} // verus!
