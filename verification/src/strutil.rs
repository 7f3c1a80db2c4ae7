//! Verified helpers over strings and character sequences: searching,
//! splitting, substring tests, replacement, and decimal rendering.

use vstd::prelude::*;

verus! {

// ---------------------------------------------------------------------------
// character classes
// ---------------------------------------------------------------------------

pub open spec fn spec_is_digit(c: char) -> bool {
    '0' <= c && c <= '9'
}

pub fn is_digit_char(c: char) -> (r: bool)
    ensures
        r == spec_is_digit(c),
{
    '0' <= c && c <= '9'
}

// ---------------------------------------------------------------------------
// appending a single character
// ---------------------------------------------------------------------------

/// Relies on `String::push` from std: appends exactly one character at the
/// end of the string.
#[verifier::external_body]
pub fn push_char(s: &mut String, c: char)
    ensures
        final(s)@ == old(s)@.push(c),
{
    s.push(c)
}

// ---------------------------------------------------------------------------
// first occurrence of a character
// ---------------------------------------------------------------------------

/// Index of the first occurrence of `c` in `s`; `s.len()` if `c` is absent.
pub open spec fn first_ix(s: Seq<char>, c: char) -> int
    decreases s.len(),
{
    if s.len() == 0 {
        0
    } else if s[0] == c {
        0
    } else {
        1 + first_ix(s.drop_first(), c)
    }
}

pub proof fn lemma_first_ix(s: Seq<char>, c: char)
    ensures
        0 <= first_ix(s, c) <= s.len(),
        forall|j: int| 0 <= j < first_ix(s, c) ==> s[j] != c,
        first_ix(s, c) < s.len() ==> s[first_ix(s, c)] == c,
    decreases s.len(),
{
    if s.len() == 0 {
    } else if s[0] == c {
    } else {
        lemma_first_ix(s.drop_first(), c);
        assert forall|j: int| 0 <= j < first_ix(s, c) implies s[j] != c by {
            if j > 0 {
                assert(s.drop_first()[j - 1] == s[j]);
            }
        }
        if first_ix(s, c) < s.len() {
            assert(s.drop_first()[first_ix(s.drop_first(), c)] == s[first_ix(s, c)]);
        }
    }
}

/// An index that holds `c` with no occurrence before it is the first index.
pub proof fn lemma_first_ix_is(s: Seq<char>, c: char, i: int)
    requires
        0 <= i <= s.len(),
        forall|j: int| 0 <= j < i ==> s[j] != c,
        i < s.len() ==> s[i] == c,
    ensures
        i == first_ix(s, c),
{
    lemma_first_ix(s, c);
    let f = first_ix(s, c);
    if f < i {
        assert(s[f] != c);
    } else if i < f {
        assert(s[i] != c);
    }
}

pub fn find_char(s: &str, c: char) -> (r: usize)
    ensures
        r == first_ix(s@, c),
{
    let len: usize = s.unicode_len();
    let mut i: usize = 0;
    while i < len
        invariant
            0 <= i <= len,
            len == s@.len(),
            forall|j: int| 0 <= j < i ==> s@[j] != c,
        decreases len - i,
    {
        if s.get_char(i) == c {
            proof {
                lemma_first_ix_is(s@, c, i as int);
            }
            return i;
        }
        i = i + 1;
    }
    proof {
        lemma_first_ix_is(s@, c, len as int);
    }
    len
}

// ---------------------------------------------------------------------------
// first decimal digit
// ---------------------------------------------------------------------------

/// Index of the first decimal digit in `s`; `s.len()` if there is none.
pub open spec fn first_digit_ix(s: Seq<char>) -> int
    decreases s.len(),
{
    if s.len() == 0 {
        0
    } else if spec_is_digit(s[0]) {
        0
    } else {
        1 + first_digit_ix(s.drop_first())
    }
}

pub proof fn lemma_first_digit_ix(s: Seq<char>)
    ensures
        0 <= first_digit_ix(s) <= s.len(),
        forall|j: int| 0 <= j < first_digit_ix(s) ==> !spec_is_digit(s[j]),
        first_digit_ix(s) < s.len() ==> spec_is_digit(s[first_digit_ix(s)]),
    decreases s.len(),
{
    if s.len() == 0 {
    } else if spec_is_digit(s[0]) {
    } else {
        lemma_first_digit_ix(s.drop_first());
        assert forall|j: int| 0 <= j < first_digit_ix(s) implies !spec_is_digit(s[j]) by {
            if j > 0 {
                assert(s.drop_first()[j - 1] == s[j]);
            }
        }
        if first_digit_ix(s) < s.len() {
            assert(s.drop_first()[first_digit_ix(s.drop_first())] == s[first_digit_ix(s)]);
        }
    }
}

pub proof fn lemma_first_digit_ix_is(s: Seq<char>, i: int)
    requires
        0 <= i <= s.len(),
        forall|j: int| 0 <= j < i ==> !spec_is_digit(s[j]),
        i < s.len() ==> spec_is_digit(s[i]),
    ensures
        i == first_digit_ix(s),
{
    lemma_first_digit_ix(s);
    let f = first_digit_ix(s);
    if f < i {
        assert(!spec_is_digit(s[f]));
    } else if i < f {
        assert(!spec_is_digit(s[i]));
    }
}

pub fn find_first_digit(s: &str) -> (r: usize)
    ensures
        r == first_digit_ix(s@),
{
    let len: usize = s.unicode_len();
    let mut i: usize = 0;
    while i < len
        invariant
            0 <= i <= len,
            len == s@.len(),
            forall|j: int| 0 <= j < i ==> !spec_is_digit(s@[j]),
        decreases len - i,
    {
        if is_digit_char(s.get_char(i)) {
            proof {
                lemma_first_digit_ix_is(s@, i as int);
            }
            return i;
        }
        i = i + 1;
    }
    proof {
        lemma_first_digit_ix_is(s@, len as int);
    }
    len
}

// ---------------------------------------------------------------------------
// string equality
// ---------------------------------------------------------------------------

pub fn str_eq(a: &str, b: &str) -> (r: bool)
    ensures
        r == (a@ == b@),
{
    let alen: usize = a.unicode_len();
    let blen: usize = b.unicode_len();
    if alen != blen {
        return false;
    }
    let mut i: usize = 0;
    while i < alen
        invariant
            0 <= i <= alen,
            alen == a@.len(),
            alen == b@.len(),
            forall|j: int| 0 <= j < i ==> a@[j] == b@[j],
        decreases alen - i,
    {
        if a.get_char(i) != b.get_char(i) {
            return false;
        }
        i = i + 1;
    }
    proof {
        assert(a@ =~= b@);
    }
    true
}

// ---------------------------------------------------------------------------
// substring search
// ---------------------------------------------------------------------------

/// `needle` occurs in `hay` starting at index `k`.
pub open spec fn match_at(hay: Seq<char>, needle: Seq<char>, k: int) -> bool {
    0 <= k && k + needle.len() <= hay.len() && (forall|j: int|
        0 <= j < needle.len() ==> hay[k + j] == needle[j])
}

/// `needle` occurs somewhere in `hay`.
pub open spec fn contains_sub(hay: Seq<char>, needle: Seq<char>) -> bool {
    exists|k: int| match_at(hay, needle, k)
}

fn match_at_exec(hay: &str, needle: &str, k: usize, nlen: usize, hlen: usize) -> (r: bool)
    requires
        nlen == needle@.len(),
        hlen == hay@.len(),
        k + nlen <= hlen,
    ensures
        r == match_at(hay@, needle@, k as int),
{
    let mut j: usize = 0;
    while j < nlen
        invariant
            0 <= j <= nlen,
            nlen == needle@.len(),
            hlen == hay@.len(),
            k + nlen <= hlen,
            forall|j2: int| 0 <= j2 < j ==> hay@[k + j2] == needle@[j2],
        decreases nlen - j,
    {
        if hay.get_char(k + j) != needle.get_char(j) {
            return false;
        }
        j = j + 1;
    }
    true
}

pub fn contains_str(hay: &str, needle: &str) -> (r: bool)
    ensures
        r == contains_sub(hay@, needle@),
{
    let hlen: usize = hay.unicode_len();
    let nlen: usize = needle.unicode_len();
    if nlen > hlen {
        return false;
    }
    let mut k: usize = 0;
    while k <= hlen - nlen
        invariant
            nlen <= hlen,
            hlen == hay@.len(),
            nlen == needle@.len(),
            0 <= k <= hlen - nlen + 1,
            forall|k2: int| 0 <= k2 < k ==> !match_at(hay@, needle@, k2),
        decreases hlen - nlen + 1 - k,
    {
        if match_at_exec(hay, needle, k, nlen, hlen) {
            return true;
        }
        k = k + 1;
    }
    false
}

// ---------------------------------------------------------------------------
// suffix after the last occurrence of a character
// ---------------------------------------------------------------------------

/// Everything after the last occurrence of `c`; the whole of `s` if `c` is
/// absent.
pub open spec fn after_last(s: Seq<char>, c: char) -> Seq<char>
    decreases s.len(),
{
    if s.len() == 0 {
        s
    } else if s.last() == c {
        Seq::empty()
    } else {
        after_last(s.drop_last(), c).push(s.last())
    }
}

pub proof fn lemma_after_last_skip(s: Seq<char>, c: char, j: int)
    requires
        0 <= j < s.len(),
        s[j] == c,
        forall|j2: int| j < j2 < s.len() ==> s[j2] != c,
    ensures
        after_last(s, c) == s.skip(j + 1),
    decreases s.len(),
{
    if j == s.len() - 1 {
        assert(s.skip(j + 1) =~= Seq::<char>::empty());
    } else {
        assert(s.last() != c);
        assert(s.drop_last()[j] == s[j]);
        assert forall|j2: int| j < j2 < s.drop_last().len() implies s.drop_last()[j2] != c by {
            assert(s.drop_last()[j2] == s[j2]);
        }
        lemma_after_last_skip(s.drop_last(), c, j);
        assert(s.skip(j + 1) =~= s.drop_last().skip(j + 1).push(s.last()));
    }
}

pub proof fn lemma_after_last_absent(s: Seq<char>, c: char)
    requires
        forall|j: int| 0 <= j < s.len() ==> s[j] != c,
    ensures
        after_last(s, c) == s,
    decreases s.len(),
{
    if s.len() > 0 {
        lemma_after_last_absent(s.drop_last(), c);
        assert(after_last(s, c) =~= s);
    }
}

pub fn after_last_str(s: &str, c: char) -> (r: String)
    ensures
        r@ == after_last(s@, c),
{
    let len: usize = s.unicode_len();
    let mut cut: usize = 0;
    let mut i: usize = 0;
    while i < len
        invariant
            0 <= i <= len,
            len == s@.len(),
            cut == 0 ==> forall|j: int| 0 <= j < i ==> s@[j] != c,
            cut > 0 ==> cut <= i && s@[cut - 1] == c && (forall|j: int|
                cut - 1 < j < i ==> s@[j] != c),
        decreases len - i,
    {
        if s.get_char(i) == c {
            cut = i + 1;
        }
        i = i + 1;
    }
    proof {
        if cut == 0 {
            lemma_after_last_absent(s@, c);
            assert(s@.subrange(0, len as int) =~= s@);
        } else {
            lemma_after_last_skip(s@, c, cut as int - 1);
            assert(s@.subrange(cut as int, len as int) =~= s@.skip(cut as int));
        }
    }
    let sub: &str = s.substring_char(cut, len);
    String::from_str(sub)
}

// ---------------------------------------------------------------------------
// splitting on a separator character
// ---------------------------------------------------------------------------

/// The parts of `s` between occurrences of `c`, in order; empty input gives
/// one empty part, as `str::split` does.
pub open spec fn split_char(s: Seq<char>, c: char) -> Seq<Seq<char>>
    decreases s.len(),
{
    if s.len() == 0 {
        seq![Seq::empty()]
    } else {
        let r = split_char(s.drop_last(), c);
        if s.last() == c {
            r.push(Seq::empty())
        } else {
            r.update(r.len() - 1, r.last().push(s.last()))
        }
    }
}

pub proof fn lemma_split_char_len(s: Seq<char>, c: char)
    ensures
        split_char(s, c).len() >= 1,
    decreases s.len(),
{
    if s.len() > 0 {
        lemma_split_char_len(s.drop_last(), c);
    }
}

pub fn split_char_str(s: &str, c: char) -> (r: Vec<String>)
    ensures
        r@.len() == split_char(s@, c).len(),
        forall|i: int| 0 <= i < r@.len() ==> r@[i]@ == split_char(s@, c)[i],
{
    let len: usize = s.unicode_len();
    let mut parts: Vec<String> = Vec::new();
    parts.push(String::new());
    let mut i: usize = 0;
    while i < len
        invariant
            0 <= i <= len,
            len == s@.len(),
            parts@.len() == split_char(s@.subrange(0, i as int), c).len(),
            forall|j: int| 0 <= j < parts@.len() ==> parts@[j]@ == split_char(
                s@.subrange(0, i as int),
                c,
            )[j],
        decreases len - i,
    {
        let ghost pre = s@.subrange(0, i as int);
        let ghost post = s@.subrange(0, i as int + 1);
        proof {
            assert(post.drop_last() =~= pre);
            assert(post.last() == s@[i as int]);
            lemma_split_char_len(pre, c);
        }
        let ch: char = s.get_char(i);
        if ch == c {
            parts.push(String::new());
        } else {
            let mut lastp: String = parts.pop().unwrap();
            push_char(&mut lastp, ch);
            parts.push(lastp);
        }
        i = i + 1;
    }
    proof {
        assert(s@.subrange(0, len as int) =~= s@);
    }
    parts
}

// ---------------------------------------------------------------------------
// splitting on blanks
// ---------------------------------------------------------------------------

pub open spec fn spec_is_blank(c: char) -> bool {
    c == ' ' || c == '\t'
}

pub fn is_blank_char(c: char) -> (r: bool)
    ensures
        r == spec_is_blank(c),
{
    c == ' ' || c == '\t'
}

/// The maximal blank-free runs of `s`, in order, with no empty parts.
pub open spec fn split_blanks(s: Seq<char>) -> Seq<Seq<char>>
    decreases s.len(),
{
    if s.len() == 0 {
        Seq::empty()
    } else if spec_is_blank(s.last()) {
        split_blanks(s.drop_last())
    } else if s.len() == 1 || spec_is_blank(s[s.len() - 2]) {
        split_blanks(s.drop_last()).push(seq![s.last()])
    } else {
        let r = split_blanks(s.drop_last());
        r.update(r.len() - 1, r.last().push(s.last()))
    }
}

pub proof fn lemma_split_blanks_nonempty(s: Seq<char>)
    requires
        s.len() > 0,
        !spec_is_blank(s.last()),
    ensures
        split_blanks(s).len() >= 1,
    decreases s.len(),
{
    if !(s.len() == 1 || spec_is_blank(s[s.len() - 2])) {
        lemma_split_blanks_nonempty(s.drop_last());
    }
}

pub fn split_blanks_str(s: &str) -> (r: Vec<String>)
    ensures
        r@.len() == split_blanks(s@).len(),
        forall|i: int| 0 <= i < r@.len() ==> r@[i]@ == split_blanks(s@)[i],
{
    let len: usize = s.unicode_len();
    let mut parts: Vec<String> = Vec::new();
    let mut prev_blank: bool = true;
    let mut i: usize = 0;
    while i < len
        invariant
            0 <= i <= len,
            len == s@.len(),
            prev_blank == (i == 0 || spec_is_blank(s@[i as int - 1])),
            parts@.len() == split_blanks(s@.subrange(0, i as int)).len(),
            forall|j: int| 0 <= j < parts@.len() ==> parts@[j]@ == split_blanks(
                s@.subrange(0, i as int),
            )[j],
        decreases len - i,
    {
        let ghost pre = s@.subrange(0, i as int);
        let ghost post = s@.subrange(0, i as int + 1);
        proof {
            assert(post.drop_last() =~= pre);
            assert(post.last() == s@[i as int]);
            if i > 0 {
                assert(post[post.len() - 2] == s@[i as int - 1]);
            }
            if !prev_blank {
                assert(pre.len() > 0 && !spec_is_blank(pre.last()));
                lemma_split_blanks_nonempty(pre);
            }
        }
        let ch: char = s.get_char(i);
        if is_blank_char(ch) {
            prev_blank = true;
        } else {
            if prev_blank {
                let mut fresh: String = String::new();
                push_char(&mut fresh, ch);
                parts.push(fresh);
            } else {
                let mut lastp: String = parts.pop().unwrap();
                push_char(&mut lastp, ch);
                parts.push(lastp);
            }
            prev_blank = false;
        }
        i = i + 1;
    }
    proof {
        assert(s@.subrange(0, len as int) =~= s@);
    }
    parts
}

// ---------------------------------------------------------------------------
// substring replacement
// ---------------------------------------------------------------------------

/// `s` with every non-overlapping occurrence of `pat` replaced by `repl`,
/// scanning left to right; `s` itself when `pat` is empty.
pub open spec fn spec_replace(s: Seq<char>, pat: Seq<char>, repl: Seq<char>) -> Seq<char>
    decreases s.len(),
{
    if pat.len() == 0 || s.len() < pat.len() {
        s
    } else if s.take(pat.len() as int) == pat {
        repl + spec_replace(s.skip(pat.len() as int), pat, repl)
    } else {
        seq![s[0]] + spec_replace(s.drop_first(), pat, repl)
    }
}

pub fn replace_str(s: &str, pat: &str, repl: &str) -> (r: String)
    ensures
        r@ == spec_replace(s@, pat@, repl@),
{
    let len: usize = s.unicode_len();
    let plen: usize = pat.unicode_len();
    if plen == 0 {
        return String::from_str(s);
    }
    let mut out: String = String::new();
    let mut i: usize = 0;
    proof {
        assert(s@.skip(0) =~= s@);
    }
    while i < len
        invariant
            0 <= i <= len,
            len == s@.len(),
            plen == pat@.len(),
            plen > 0,
            spec_replace(s@, pat@, repl@) == out@ + spec_replace(s@.skip(i as int), pat@, repl@),
        decreases len - i,
    {
        let ghost tail = s@.skip(i as int);
        if plen <= len - i && match_at_exec(s, pat, i, plen, len) {
            proof {
                assert(tail.take(plen as int) =~= pat@);
                assert(tail.skip(plen as int) =~= s@.skip(i as int + plen as int));
            }
            out.append(repl);
            i = i + plen;
        } else {
            proof {
                if plen <= len - i {
                    assert(!match_at(s@, pat@, i as int));
                    let ghost w = choose|j: int|
                        0 <= j < pat@.len() && s@[i + j] != pat@[j];
                    assert(tail.take(plen as int)[w] != pat@[w]);
                } else {
                    assert(tail.len() < plen);
                }
                if tail.len() >= plen {
                    assert(tail.take(plen as int) != pat@);
                }
                assert(tail.drop_first() =~= s@.skip(i as int + 1));
                assert(tail[0] == s@[i as int]);
            }
            let ch: char = s.get_char(i);
            push_char(&mut out, ch);
            i = i + 1;
        }
    }
    proof {
        assert(s@.skip(len as int) =~= Seq::<char>::empty());
    }
    out
}

// ---------------------------------------------------------------------------
// decimal digits
// ---------------------------------------------------------------------------

pub open spec fn digit_char(d: nat) -> char {
    if d == 0 {
        '0'
    } else if d == 1 {
        '1'
    } else if d == 2 {
        '2'
    } else if d == 3 {
        '3'
    } else if d == 4 {
        '4'
    } else if d == 5 {
        '5'
    } else if d == 6 {
        '6'
    } else if d == 7 {
        '7'
    } else if d == 8 {
        '8'
    } else {
        '9'
    }
}

pub open spec fn digit_val(c: char) -> nat {
    (c as u32 - 48) as nat
}

pub open spec fn all_digits(s: Seq<char>) -> bool {
    forall|i: int| 0 <= i < s.len() ==> spec_is_digit(s[i])
}

/// The number that a digit string denotes, most significant digit first.
pub open spec fn digits_val(s: Seq<char>) -> nat
    decreases s.len(),
{
    if s.len() == 0 {
        0
    } else {
        digits_val(s.drop_last()) * 10 + digit_val(s.last())
    }
}

/// The canonical decimal rendering of `n`, without leading zeros.
pub open spec fn spec_dec(n: nat) -> Seq<char>
    decreases n,
{
    if n < 10 {
        seq![digit_char(n)]
    } else {
        spec_dec(n / 10).push(digit_char(n % 10))
    }
}

pub proof fn lemma_digit_char_val(d: nat)
    requires
        d < 10,
    ensures
        digit_val(digit_char(d)) == d,
        spec_is_digit(digit_char(d)),
        d >= 1 ==> digit_char(d) != '0',
{
}

pub proof fn lemma_spec_dec_shape(n: nat)
    ensures
        spec_dec(n).len() >= 1,
        n >= 10 ==> spec_dec(n).len() >= 2,
        all_digits(spec_dec(n)),
        spec_dec(n)[0] != '0' || n < 10,
        digits_val(spec_dec(n)) == n,
    decreases n,
{
    if n < 10 {
        lemma_digit_char_val(n);
        assert(spec_dec(n).drop_last() =~= Seq::<char>::empty());
        assert(digits_val(Seq::<char>::empty()) == 0);
        assert(spec_dec(n).last() == digit_char(n));
        assert(digits_val(spec_dec(n)) == 0 * 10 + digit_val(digit_char(n)));
    } else {
        lemma_spec_dec_shape(n / 10);
        lemma_digit_char_val(n % 10);
        let s = spec_dec(n);
        assert(s.drop_last() =~= spec_dec(n / 10));
        assert(s.last() == digit_char(n % 10));
        assert(digits_val(s) == (n / 10) * 10 + n % 10);
        assert((n / 10) * 10 + n % 10 == n) by (nonlinear_arith);
        assert forall|i: int| 0 <= i < s.len() implies spec_is_digit(s[i]) by {
            if i < s.len() - 1 {
                assert(s[i] == spec_dec(n / 10)[i]);
            }
        }
        assert(n / 10 >= 1);
        assert(s[0] == spec_dec(n / 10)[0]);
        if n / 10 < 10 {
            lemma_digit_char_val(n / 10);
        }
    }
}

fn digit_char_exec(d: u64) -> (c: char)
    requires
        d < 10,
    ensures
        c == digit_char(d as nat),
{
    match d {
        0 => '0',
        1 => '1',
        2 => '2',
        3 => '3',
        4 => '4',
        5 => '5',
        6 => '6',
        7 => '7',
        8 => '8',
        _ => '9',
    }
}

pub fn u64_to_string(n: u64) -> (r: String)
    ensures
        r@ == spec_dec(n as nat),
    decreases n,
{
    if n < 10 {
        let mut s: String = String::new();
        push_char(&mut s, digit_char_exec(n));
        proof {
            assert(s@ =~= spec_dec(n as nat));
        }
        s
    } else {
        let mut s: String = u64_to_string(n / 10);
        push_char(&mut s, digit_char_exec(n % 10));
        s
    }
}

/// The decimal rendering of a signed number: a minus sign, then the digits
/// of the magnitude.
pub open spec fn spec_dec_i64(n: int) -> Seq<char> {
    if n >= 0 {
        spec_dec(n as nat)
    } else {
        seq!['-'] + spec_dec((-n) as nat)
    }
}

pub fn i64_to_string(n: i64) -> (r: String)
    ensures
        r@ == spec_dec_i64(n as int),
{
    if n >= 0 {
        u64_to_string(n as u64)
    } else {
        let mag: u64 = ((-(n + 1)) as u64) + 1;
        let mut s: String = String::new();
        push_char(&mut s, '-');
        let digits: String = u64_to_string(mag);
        s.append(digits.as_str());
        proof {
            assert(s@ =~= spec_dec_i64(n as int));
        }
        s
    }
}

pub fn i32_to_string(n: i32) -> (r: String)
    ensures
        r@ == spec_dec_i64(n as int),
{
    i64_to_string(n as i64)
}

} // verus!
