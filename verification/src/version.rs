//! Semantic versions: a verified model of release tags.
//!
//! A tag is cleaned by stripping everything before its first decimal digit,
//! then read as `major.minor.patch`, optionally followed by `-pre` and
//! `+build`. A tag that does not have this shape yields version `0.0.0`,
//! which orders below every other version: a deliberate fail-safe.
//! Precedence follows semantic-versioning rules: numeric triples first,
//! then pre-release identifiers (a pre-release orders below the plain
//! version; identifiers compare numerically when both are numeric, else
//! lexically, with numeric below alphanumeric).

use vstd::prelude::*;

use crate::strutil::{
    all_digits, digit_val, digits_val, find_char, find_first_digit, first_digit_ix, first_ix,
    is_digit_char, lemma_first_digit_ix, lemma_first_digit_ix_is, lemma_first_ix,
    lemma_first_ix_is, lemma_spec_dec_shape, lemma_split_char_len, push_char, spec_dec,
    spec_is_digit, split_char, split_char_str, str_eq, u64_to_string,
};

verus! {

/// A parsed semantic version. An empty `pre` means a stable release.
#[derive(Clone, Debug, PartialEq, Eq)]
pub struct Version {
    pub major: u64,
    pub minor: u64,
    pub patch: u64,
    pub pre: String,
    pub build: String,
}

// ---------------------------------------------------------------------------
// tag cleaning
// ---------------------------------------------------------------------------

/// The tag with everything before its first decimal digit removed.
pub open spec fn spec_clean(s: Seq<char>) -> Seq<char> {
    s.skip(first_digit_ix(s))
}

/// Removes every character before the first decimal digit, so that tags
/// such as `v1.2.3` or `release-1.2.3` read as plain versions.
pub fn clean_github_tag(tag: &String) -> (r: String)
    ensures
        r@ == spec_clean(tag@),
{
    let s: &str = tag.as_str();
    let len: usize = s.unicode_len();
    let k: usize = find_first_digit(s);
    proof {
        lemma_first_digit_ix(s@);
        assert(s@.subrange(k as int, len as int) =~= s@.skip(k as int));
    }
    String::from_str(s.substring_char(k, len))
}

// ---------------------------------------------------------------------------
// grammar of a version string
// ---------------------------------------------------------------------------

pub open spec fn spec_is_ident_char(c: char) -> bool {
    spec_is_digit(c) || ('A' <= c && c <= 'Z') || ('a' <= c && c <= 'z') || c == '-'
}

/// A numeric identifier: digits only, no leading zero, small enough to hold.
pub open spec fn valid_num_ident(s: Seq<char>) -> bool {
    s.len() > 0 && all_digits(s) && (s.len() == 1 || s[0] != '0') && digits_val(s) <= u64::MAX
}

/// One pre-release identifier: nonempty, alphanumeric or hyphen, and a
/// purely numeric one has no leading zero.
pub open spec fn pre_ident_ok(p: Seq<char>) -> bool {
    p.len() > 0 && (forall|i: int| 0 <= i < p.len() ==> spec_is_ident_char(p[i])) && (all_digits(p)
        ==> (p.len() == 1 || p[0] != '0'))
}

pub open spec fn spec_valid_pre(s: Seq<char>) -> bool {
    forall|i: int|
        0 <= i < split_char(s, '.').len() ==> pre_ident_ok(#[trigger] split_char(s, '.')[i])
}

/// One build identifier: nonempty, alphanumeric or hyphen.
pub open spec fn build_ident_ok(p: Seq<char>) -> bool {
    p.len() > 0 && (forall|i: int| 0 <= i < p.len() ==> spec_is_ident_char(p[i]))
}

pub open spec fn spec_valid_build(s: Seq<char>) -> bool {
    forall|i: int|
        0 <= i < split_char(s, '.').len() ==> build_ident_ok(#[trigger] split_char(s, '.')[i])
}

/// The part before the first `+`: version core and pre-release.
pub open spec fn spec_core_pre(s: Seq<char>) -> Seq<char> {
    s.take(first_ix(s, '+'))
}

pub open spec fn spec_has_build(s: Seq<char>) -> bool {
    first_ix(s, '+') < s.len()
}

pub open spec fn spec_build(s: Seq<char>) -> Seq<char> {
    if spec_has_build(s) {
        s.skip(first_ix(s, '+') + 1)
    } else {
        Seq::empty()
    }
}

pub open spec fn spec_has_pre(s: Seq<char>) -> bool {
    first_ix(spec_core_pre(s), '-') < spec_core_pre(s).len()
}

pub open spec fn spec_pre(s: Seq<char>) -> Seq<char> {
    if spec_has_pre(s) {
        spec_core_pre(s).skip(first_ix(spec_core_pre(s), '-') + 1)
    } else {
        Seq::empty()
    }
}

/// The `major.minor.patch` core: before the first `-` of the core-pre part.
pub open spec fn spec_core(s: Seq<char>) -> Seq<char> {
    spec_core_pre(s).take(first_ix(spec_core_pre(s), '-'))
}

pub open spec fn spec_maj_part(s: Seq<char>) -> Seq<char> {
    spec_core(s).take(first_ix(spec_core(s), '.'))
}

pub open spec fn spec_mid_rest(s: Seq<char>) -> Seq<char> {
    spec_core(s).skip(first_ix(spec_core(s), '.') + 1)
}

pub open spec fn spec_min_part(s: Seq<char>) -> Seq<char> {
    spec_mid_rest(s).take(first_ix(spec_mid_rest(s), '.'))
}

pub open spec fn spec_pat_part(s: Seq<char>) -> Seq<char> {
    spec_mid_rest(s).skip(first_ix(spec_mid_rest(s), '.') + 1)
}

/// The cleaned string has the exact `X.Y.Z[-pre][+build]` shape.
pub open spec fn spec_valid_semver(s: Seq<char>) -> bool {
    &&& first_ix(spec_core(s), '.') < spec_core(s).len()
    &&& first_ix(spec_mid_rest(s), '.') < spec_mid_rest(s).len()
    &&& valid_num_ident(spec_maj_part(s))
    &&& valid_num_ident(spec_min_part(s))
    &&& valid_num_ident(spec_pat_part(s))
    &&& (spec_has_pre(s) ==> spec_valid_pre(spec_pre(s)))
    &&& (spec_has_build(s) ==> spec_valid_build(spec_build(s)))
}

pub open spec fn spec_major(s: Seq<char>) -> nat {
    digits_val(spec_maj_part(s))
}

pub open spec fn spec_minor(s: Seq<char>) -> nat {
    digits_val(spec_min_part(s))
}

pub open spec fn spec_patch(s: Seq<char>) -> nat {
    digits_val(spec_pat_part(s))
}

/// What parsing the (already cleaned) string `s` must produce.
pub open spec fn version_matches(s: Seq<char>, v: Version) -> bool {
    if spec_valid_semver(s) {
        v.major as nat == spec_major(s) && v.minor as nat == spec_minor(s) && v.patch as nat
            == spec_patch(s) && v.pre@ == spec_pre(s) && v.build@ == spec_build(s)
    } else {
        v.major == 0 && v.minor == 0 && v.patch == 0 && v.pre@ == Seq::<char>::empty() && v.build@
            == Seq::<char>::empty()
    }
}

// ---------------------------------------------------------------------------
// parsing
// ---------------------------------------------------------------------------

/// The fail-safe version `0.0.0`, older than every real version.
pub fn zero_version() -> (v: Version)
    ensures
        v.major == 0,
        v.minor == 0,
        v.patch == 0,
        v.pre@ == Seq::<char>::empty(),
        v.build@ == Seq::<char>::empty(),
{
    let v = Version {
        major: 0,
        minor: 0,
        patch: 0,
        pre: String::new(),
        build: String::new(),
    };
    proof {
        assert(v.pre@ =~= Seq::<char>::empty());
        assert(v.build@ =~= Seq::<char>::empty());
    }
    v
}

fn digit_to_u64(c: char) -> (d: u64)
    requires
        spec_is_digit(c),
    ensures
        d as nat == digit_val(c),
        d < 10,
{
    ((c as u32) - 48) as u64
}

proof fn lemma_digits_val_prefix_le(s: Seq<char>, j: int)
    requires
        0 <= j <= s.len(),
    ensures
        digits_val(s.subrange(0, j)) <= digits_val(s),
    decreases s.len() - j,
{
    if j == s.len() {
        assert(s.subrange(0, j) =~= s);
    } else {
        assert(s.subrange(0, j + 1).drop_last() =~= s.subrange(0, j));
        lemma_digits_val_prefix_le(s, j + 1);
    }
}

/// Reads a numeric identifier; `None` when the text is not one.
fn parse_num(s: &str) -> (r: Option<u64>)
    ensures
        r.is_some() == valid_num_ident(s@),
        r.is_some() ==> r.unwrap() as nat == digits_val(s@),
{
    let len: usize = s.unicode_len();
    if len == 0 {
        return None;
    }
    if len > 1 && s.get_char(0) == '0' {
        return None;
    }
    let mut acc: u64 = 0;
    let mut i: usize = 0;
    proof {
        assert(s@.subrange(0, 0) =~= Seq::<char>::empty());
    }
    while i < len
        invariant
            0 <= i <= len,
            len == s@.len(),
            len > 1 ==> s@[0] != '0',
            forall|j: int| 0 <= j < i ==> spec_is_digit(s@[j]),
            acc as nat == digits_val(s@.subrange(0, i as int)),
        decreases len - i,
    {
        let c: char = s.get_char(i);
        if !is_digit_char(c) {
            return None;
        }
        let d: u64 = digit_to_u64(c);
        proof {
            assert(s@.subrange(0, i as int + 1).drop_last() =~= s@.subrange(0, i as int));
            assert(s@.subrange(0, i as int + 1).last() == s@[i as int]);
        }
        if acc > (u64::MAX - d) / 10 {
            proof {
                assert(acc as nat * 10 + d as nat > u64::MAX) by (nonlinear_arith)
                    requires
                        acc > (u64::MAX - d) / 10,
                        d < 10,
                ;
                lemma_digits_val_prefix_le(s@, i as int + 1);
            }
            return None;
        }
        acc = acc * 10 + d;
        i = i + 1;
    }
    proof {
        assert(s@.subrange(0, len as int) =~= s@);
    }
    Some(acc)
}

fn is_ident_char(c: char) -> (r: bool)
    ensures
        r == spec_is_ident_char(c),
{
    is_digit_char(c) || ('A' <= c && c <= 'Z') || ('a' <= c && c <= 'z') || c == '-'
}

fn all_digits_exec(s: &str) -> (r: bool)
    ensures
        r == all_digits(s@),
{
    let len: usize = s.unicode_len();
    let mut i: usize = 0;
    while i < len
        invariant
            0 <= i <= len,
            len == s@.len(),
            forall|j: int| 0 <= j < i ==> spec_is_digit(s@[j]),
        decreases len - i,
    {
        if !is_digit_char(s.get_char(i)) {
            return false;
        }
        i = i + 1;
    }
    true
}

fn pre_ident_ok_exec(p: &str) -> (r: bool)
    ensures
        r == pre_ident_ok(p@),
{
    let len: usize = p.unicode_len();
    if len == 0 {
        return false;
    }
    let mut i: usize = 0;
    while i < len
        invariant
            0 <= i <= len,
            len == p@.len(),
            forall|j: int| 0 <= j < i ==> spec_is_ident_char(p@[j]),
        decreases len - i,
    {
        if !is_ident_char(p.get_char(i)) {
            return false;
        }
        i = i + 1;
    }
    if all_digits_exec(p) && len > 1 && p.get_char(0) == '0' {
        return false;
    }
    true
}

fn build_ident_ok_exec(p: &str) -> (r: bool)
    ensures
        r == build_ident_ok(p@),
{
    let len: usize = p.unicode_len();
    if len == 0 {
        return false;
    }
    let mut i: usize = 0;
    while i < len
        invariant
            0 <= i <= len,
            len == p@.len(),
            forall|j: int| 0 <= j < i ==> spec_is_ident_char(p@[j]),
        decreases len - i,
    {
        if !is_ident_char(p.get_char(i)) {
            return false;
        }
        i = i + 1;
    }
    true
}

fn valid_pre_exec(s: &str) -> (r: bool)
    ensures
        r == spec_valid_pre(s@),
{
    let parts: Vec<String> = split_char_str(s, '.');
    let n: usize = parts.len();
    let mut i: usize = 0;
    while i < n
        invariant
            0 <= i <= n,
            n == parts@.len(),
            parts@.len() == split_char(s@, '.').len(),
            forall|j: int| 0 <= j < parts@.len() ==> parts@[j]@ == split_char(s@, '.')[j],
            forall|j: int| 0 <= j < i ==> pre_ident_ok(#[trigger] split_char(s@, '.')[j]),
        decreases n - i,
    {
        if !pre_ident_ok_exec(parts[i].as_str()) {
            proof {
                assert(!pre_ident_ok(split_char(s@, '.')[i as int]));
            }
            return false;
        }
        i = i + 1;
    }
    true
}

fn valid_build_exec(s: &str) -> (r: bool)
    ensures
        r == spec_valid_build(s@),
{
    let parts: Vec<String> = split_char_str(s, '.');
    let n: usize = parts.len();
    let mut i: usize = 0;
    while i < n
        invariant
            0 <= i <= n,
            n == parts@.len(),
            parts@.len() == split_char(s@, '.').len(),
            forall|j: int| 0 <= j < parts@.len() ==> parts@[j]@ == split_char(s@, '.')[j],
            forall|j: int| 0 <= j < i ==> build_ident_ok(#[trigger] split_char(s@, '.')[j]),
        decreases n - i,
    {
        if !build_ident_ok_exec(parts[i].as_str()) {
            proof {
                assert(!build_ident_ok(split_char(s@, '.')[i as int]));
            }
            return false;
        }
        i = i + 1;
    }
    true
}

/// Parses a release tag: cleans it, then reads it as a semantic version;
/// an unparsable tag yields the fail-safe version `0.0.0`.
pub fn parse_semver(version_str: &String) -> (v: Version)
    ensures
        version_matches(spec_clean(version_str@), v),
{
    let cleaned: String = clean_github_tag(version_str);
    parse_cleaned(cleaned.as_str())
}

fn parse_cleaned(s: &str) -> (v: Version)
    ensures
        version_matches(s@, v),
{
    let len: usize = s.unicode_len();
    let plus: usize = find_char(s, '+');
    proof {
        lemma_first_ix(s@, '+');
    }
    let cp: &str = s.substring_char(0, plus);
    proof {
        assert(cp@ =~= spec_core_pre(s@));
    }
    let cplen: usize = plus;
    let has_build: bool = plus < len;
    let bslice: &str = if has_build {
        s.substring_char(plus + 1, len)
    } else {
        ""
    };
    proof {
        if has_build {
            assert(bslice@ =~= spec_build(s@));
        } else {
            reveal_strlit("");
            assert(bslice@ =~= spec_build(s@));
        }
    }
    let dash: usize = find_char(cp, '-');
    proof {
        lemma_first_ix(cp@, '-');
    }
    let core: &str = cp.substring_char(0, dash);
    let clen: usize = dash;
    proof {
        assert(core@ =~= spec_core(s@));
    }
    let has_pre: bool = dash < cplen;
    let pslice: &str = if has_pre {
        cp.substring_char(dash + 1, cplen)
    } else {
        ""
    };
    proof {
        if has_pre {
            assert(pslice@ =~= spec_pre(s@));
        } else {
            reveal_strlit("");
            assert(pslice@ =~= spec_pre(s@));
        }
    }
    let dot1: usize = find_char(core, '.');
    proof {
        lemma_first_ix(core@, '.');
    }
    if dot1 == clen {
        return zero_version();
    }
    let maj_s: &str = core.substring_char(0, dot1);
    let rest: &str = core.substring_char(dot1 + 1, clen);
    let rlen: usize = clen - (dot1 + 1);
    proof {
        assert(maj_s@ =~= spec_maj_part(s@));
        assert(rest@ =~= spec_mid_rest(s@));
    }
    let dot2: usize = find_char(rest, '.');
    proof {
        lemma_first_ix(rest@, '.');
    }
    if dot2 == rlen {
        return zero_version();
    }
    let min_s: &str = rest.substring_char(0, dot2);
    let pat_s: &str = rest.substring_char(dot2 + 1, rlen);
    proof {
        assert(min_s@ =~= spec_min_part(s@));
        assert(pat_s@ =~= spec_pat_part(s@));
    }
    let maj_o: Option<u64> = parse_num(maj_s);
    let min_o: Option<u64> = parse_num(min_s);
    let pat_o: Option<u64> = parse_num(pat_s);
    if maj_o.is_none() || min_o.is_none() || pat_o.is_none() {
        return zero_version();
    }
    if has_pre && !valid_pre_exec(pslice) {
        return zero_version();
    }
    if has_build && !valid_build_exec(bslice) {
        return zero_version();
    }
    Version {
        major: maj_o.unwrap(),
        minor: min_o.unwrap(),
        patch: pat_o.unwrap(),
        pre: String::from_str(pslice),
        build: String::from_str(bslice),
    }
}

// ---------------------------------------------------------------------------
// precedence
// ---------------------------------------------------------------------------

/// Lexicographic order on character sequences, by code point.
pub open spec fn lex_lt(a: Seq<char>, b: Seq<char>) -> bool
    decreases a.len(),
{
    if b.len() == 0 {
        false
    } else if a.len() == 0 {
        true
    } else if a[0] != b[0] {
        a[0] < b[0]
    } else {
        lex_lt(a.drop_first(), b.drop_first())
    }
}

pub open spec fn is_num_ident(p: Seq<char>) -> bool {
    p.len() > 0 && all_digits(p)
}

/// Order on single pre-release identifiers: two numeric ones compare by
/// length then lexically (equal to numeric order when neither has a leading
/// zero); a numeric one orders below an alphanumeric one; two alphanumeric
/// ones compare lexically.
pub open spec fn ident_lt(a: Seq<char>, b: Seq<char>) -> bool {
    if is_num_ident(a) && is_num_ident(b) {
        a.len() < b.len() || (a.len() == b.len() && lex_lt(a, b))
    } else if is_num_ident(a) {
        true
    } else if is_num_ident(b) {
        false
    } else {
        lex_lt(a, b)
    }
}

/// Order on identifier lists: position by position, a shorter list ordering
/// below any extension of it.
pub open spec fn idents_lt(x: Seq<Seq<char>>, y: Seq<Seq<char>>) -> bool
    decreases x.len(),
{
    if y.len() == 0 {
        false
    } else if x.len() == 0 {
        true
    } else if x[0] == y[0] {
        idents_lt(x.drop_first(), y.drop_first())
    } else {
        ident_lt(x[0], y[0])
    }
}

/// Order on whole pre-release texts: any pre-release orders below none.
pub open spec fn pre_lt(p: Seq<char>, q: Seq<char>) -> bool {
    if p.len() > 0 && q.len() == 0 {
        true
    } else if p.len() == 0 {
        false
    } else {
        idents_lt(split_char(p, '.'), split_char(q, '.'))
    }
}

/// Strict semantic-version precedence; build metadata is ignored.
pub open spec fn spec_version_lt(a: Version, b: Version) -> bool {
    if a.major != b.major {
        a.major < b.major
    } else if a.minor != b.minor {
        a.minor < b.minor
    } else if a.patch != b.patch {
        a.patch < b.patch
    } else {
        pre_lt(a.pre@, b.pre@)
    }
}

fn lex_lt_exec(a: &str, b: &str) -> (r: bool)
    ensures
        r == lex_lt(a@, b@),
{
    let alen: usize = a.unicode_len();
    let blen: usize = b.unicode_len();
    let mut i: usize = 0;
    proof {
        assert(a@.skip(0) =~= a@);
        assert(b@.skip(0) =~= b@);
    }
    while i < alen && i < blen
        invariant
            0 <= i <= alen,
            0 <= i <= blen,
            alen == a@.len(),
            blen == b@.len(),
            lex_lt(a@, b@) == lex_lt(a@.skip(i as int), b@.skip(i as int)),
            forall|j: int| 0 <= j < i ==> a@[j] == b@[j],
        decreases alen - i,
    {
        let ca: char = a.get_char(i);
        let cb: char = b.get_char(i);
        proof {
            assert(a@.skip(i as int)[0] == a@[i as int]);
            assert(b@.skip(i as int)[0] == b@[i as int]);
            assert(a@.skip(i as int).drop_first() =~= a@.skip(i as int + 1));
            assert(b@.skip(i as int).drop_first() =~= b@.skip(i as int + 1));
        }
        if ca != cb {
            return ca < cb;
        }
        i = i + 1;
    }
    proof {
        if i == blen {
            assert(b@.skip(i as int).len() == 0);
        } else {
            assert(a@.skip(i as int).len() == 0);
            assert(b@.skip(i as int).len() > 0);
        }
    }
    i == alen && i < blen
}

fn ident_lt_exec(a: &str, b: &str) -> (r: bool)
    ensures
        r == ident_lt(a@, b@),
{
    let a_num: bool = a.unicode_len() > 0 && all_digits_exec(a);
    let b_num: bool = b.unicode_len() > 0 && all_digits_exec(b);
    if a_num && b_num {
        let alen: usize = a.unicode_len();
        let blen: usize = b.unicode_len();
        if alen < blen {
            true
        } else if alen == blen {
            lex_lt_exec(a, b)
        } else {
            false
        }
    } else if a_num {
        true
    } else if b_num {
        false
    } else {
        lex_lt_exec(a, b)
    }
}

spec fn views_of(v: Seq<String>) -> Seq<Seq<char>> {
    v.map_values(|s: String| s@)
}

fn idents_lt_exec(x: &Vec<String>, y: &Vec<String>) -> (r: bool)
    ensures
        r == idents_lt(views_of(x@), views_of(y@)),
{
    let xn: usize = x.len();
    let yn: usize = y.len();
    let mut i: usize = 0;
    proof {
        assert(views_of(x@).skip(0) =~= views_of(x@));
        assert(views_of(y@).skip(0) =~= views_of(y@));
    }
    while i < xn && i < yn
        invariant
            0 <= i <= xn,
            0 <= i <= yn,
            xn == x@.len(),
            yn == y@.len(),
            idents_lt(views_of(x@), views_of(y@)) == idents_lt(
                views_of(x@).skip(i as int),
                views_of(y@).skip(i as int),
            ),
        decreases xn - i,
    {
        proof {
            assert(views_of(x@).skip(i as int)[0] == views_of(x@)[i as int]);
            assert(views_of(y@).skip(i as int)[0] == views_of(y@)[i as int]);
            assert(views_of(x@).skip(i as int).drop_first() =~= views_of(x@).skip(i as int + 1));
            assert(views_of(y@).skip(i as int).drop_first() =~= views_of(y@).skip(i as int + 1));
        }
        if !str_eq(x[i].as_str(), y[i].as_str()) {
            return ident_lt_exec(x[i].as_str(), y[i].as_str());
        }
        i = i + 1;
    }
    proof {
        if i == yn {
            assert(views_of(y@).skip(i as int).len() == 0);
        } else {
            assert(views_of(x@).skip(i as int).len() == 0);
            assert(views_of(y@).skip(i as int).len() > 0);
        }
    }
    i == xn && i < yn
}

/// Strict precedence test: `a` is older than `b`.
pub fn version_lt(a: &Version, b: &Version) -> (r: bool)
    ensures
        r == spec_version_lt(*a, *b),
{
    if a.major != b.major {
        return a.major < b.major;
    }
    if a.minor != b.minor {
        return a.minor < b.minor;
    }
    if a.patch != b.patch {
        return a.patch < b.patch;
    }
    let pa: &str = a.pre.as_str();
    let pb: &str = b.pre.as_str();
    let pa_empty: bool = pa.unicode_len() == 0;
    let pb_empty: bool = pb.unicode_len() == 0;
    if pa_empty {
        false
    } else if pb_empty {
        true
    } else {
        let xs: Vec<String> = split_char_str(pa, '.');
        let ys: Vec<String> = split_char_str(pb, '.');
        proof {
            assert(views_of(xs@) =~= split_char(pa@, '.'));
            assert(views_of(ys@) =~= split_char(pb@, '.'));
        }
        idents_lt_exec(&xs, &ys)
    }
}

/// A version is stable when it carries no pre-release label.
pub fn is_stable(version: Version) -> (r: bool)
    ensures
        r == (version.pre@.len() == 0),
{
    version.pre.as_str().unicode_len() == 0
}

/// The candidate is an update only when it strictly exceeds the current
/// version under semantic-version precedence.
pub fn is_outdated(current_ver: Version, other_ver: Version) -> (r: bool)
    ensures
        r == spec_version_lt(current_ver, other_ver),
{
    version_lt(&current_ver, &other_ver)
}

/// The newer of the two versions; the first one when neither is newer.
pub fn compare_semver(version_1: Version, version_2: Version) -> (r: Version)
    ensures
        r == if spec_version_lt(version_1, version_2) {
            version_2
        } else {
            version_1
        },
{
    if version_lt(&version_1, &version_2) {
        version_2
    } else {
        version_1
    }
}

// ---------------------------------------------------------------------------
// rendering
// ---------------------------------------------------------------------------

/// The canonical text of a version: `X.Y.Z`, then `-pre` when a pre-release
/// label is present, then `+build` when build metadata is present.
pub open spec fn spec_version_str(v: Version) -> Seq<char> {
    spec_dec(v.major as nat) + seq!['.'] + spec_dec(v.minor as nat) + seq!['.'] + spec_dec(
        v.patch as nat,
    ) + (if v.pre@.len() > 0 {
        seq!['-'] + v.pre@
    } else {
        Seq::empty()
    }) + (if v.build@.len() > 0 {
        seq!['+'] + v.build@
    } else {
        Seq::empty()
    })
}

pub fn version_to_string(v: &Version) -> (r: String)
    ensures
        r@ == spec_version_str(*v),
{
    let mut s: String = u64_to_string(v.major);
    push_char(&mut s, '.');
    let minor: String = u64_to_string(v.minor);
    s.append(minor.as_str());
    push_char(&mut s, '.');
    let patch: String = u64_to_string(v.patch);
    s.append(patch.as_str());
    if v.pre.as_str().unicode_len() > 0 {
        push_char(&mut s, '-');
        s.append(v.pre.as_str());
    }
    if v.build.as_str().unicode_len() > 0 {
        push_char(&mut s, '+');
        s.append(v.build.as_str());
    }
    proof {
        assert(s@ =~= spec_version_str(*v));
    }
    s
}

// ---------------------------------------------------------------------------
// tag-level views of parse and precedence
// ---------------------------------------------------------------------------

/// The rendered version text of a cleaned tag: its components when it is a
/// valid version string, `0.0.0` otherwise.
pub open spec fn spec_rendered_version(s: Seq<char>) -> Seq<char> {
    if spec_valid_semver(s) {
        spec_dec(spec_major(s)) + seq!['.'] + spec_dec(spec_minor(s)) + seq!['.'] + spec_dec(
            spec_patch(s),
        ) + (if spec_pre(s).len() > 0 {
            seq!['-'] + spec_pre(s)
        } else {
            Seq::empty()
        }) + (if spec_build(s).len() > 0 {
            seq!['+'] + spec_build(s)
        } else {
            Seq::empty()
        })
    } else {
        seq!['0', '.', '0', '.', '0']
    }
}

pub proof fn lemma_rendered_version(s: Seq<char>, v: Version)
    requires
        version_matches(s, v),
    ensures
        spec_version_str(v) == spec_rendered_version(s),
{
    if spec_valid_semver(s) {
    } else {
        assert(spec_dec(0) =~= seq!['0']);
        assert(spec_version_str(v) =~= seq!['0', '.', '0', '.', '0']);
    }
}

/// The numeric components a tag effectively carries, an invalid one
/// counting as zero with no pre-release.
pub open spec fn spec_comp_major(s: Seq<char>) -> nat {
    if spec_valid_semver(s) {
        spec_major(s)
    } else {
        0
    }
}

pub open spec fn spec_comp_minor(s: Seq<char>) -> nat {
    if spec_valid_semver(s) {
        spec_minor(s)
    } else {
        0
    }
}

pub open spec fn spec_comp_patch(s: Seq<char>) -> nat {
    if spec_valid_semver(s) {
        spec_patch(s)
    } else {
        0
    }
}

pub open spec fn spec_comp_pre(s: Seq<char>) -> Seq<char> {
    if spec_valid_semver(s) {
        spec_pre(s)
    } else {
        Seq::empty()
    }
}

/// Precedence between two raw tags: clean both, read both (an unreadable
/// tag counting as `0.0.0`), and compare.
pub open spec fn spec_tag_lt(a: Seq<char>, b: Seq<char>) -> bool {
    let ca = spec_clean(a);
    let cb = spec_clean(b);
    if spec_comp_major(ca) != spec_comp_major(cb) {
        spec_comp_major(ca) < spec_comp_major(cb)
    } else if spec_comp_minor(ca) != spec_comp_minor(cb) {
        spec_comp_minor(ca) < spec_comp_minor(cb)
    } else if spec_comp_patch(ca) != spec_comp_patch(cb) {
        spec_comp_patch(ca) < spec_comp_patch(cb)
    } else {
        pre_lt(spec_comp_pre(ca), spec_comp_pre(cb))
    }
}

/// Parsing two tags and comparing the versions is the same as comparing
/// the tags directly.
pub proof fn lemma_version_lt_of_tags(a: Seq<char>, b: Seq<char>, va: Version, vb: Version)
    requires
        version_matches(spec_clean(a), va),
        version_matches(spec_clean(b), vb),
    ensures
        spec_version_lt(va, vb) == spec_tag_lt(a, b),
{
}

// ---------------------------------------------------------------------------
// laws
// ---------------------------------------------------------------------------

/// Every character of a text whose dot-separated parts hold only identifier
/// characters is itself a dot or an identifier character.
proof fn lemma_split_parts_chars(s: Seq<char>)
    requires
        forall|i: int, q: int|
            0 <= i < split_char(s, '.').len() && 0 <= q < (#[trigger] split_char(s, '.')[i]).len()
                ==> spec_is_ident_char(#[trigger] split_char(s, '.')[i][q]),
    ensures
        forall|j: int| 0 <= j < s.len() ==> s[j] == '.' || spec_is_ident_char(s[j]),
    decreases s.len(),
{
    if s.len() > 0 {
        let r = split_char(s.drop_last(), '.');
        lemma_split_char_len(s.drop_last(), '.');
        if s.last() == '.' {
            assert forall|i: int, q: int|
                0 <= i < r.len() && 0 <= q < (#[trigger] r[i]).len() implies spec_is_ident_char(
                #[trigger] r[i][q],
            ) by {
                assert(split_char(s, '.')[i] == r[i]);
            }
            lemma_split_parts_chars(s.drop_last());
            assert forall|j: int| 0 <= j < s.len() implies s[j] == '.' || spec_is_ident_char(
                s[j],
            ) by {
                if j < s.len() - 1 {
                    assert(s.drop_last()[j] == s[j]);
                }
            }
        } else {
            let full = split_char(s, '.');
            assert(full == r.update(r.len() - 1, r.last().push(s.last())));
            assert forall|i: int, q: int|
                0 <= i < r.len() && 0 <= q < (#[trigger] r[i]).len() implies spec_is_ident_char(
                #[trigger] r[i][q],
            ) by {
                if i < r.len() - 1 {
                    assert(full[i] == r[i]);
                } else {
                    assert(full[i] == r.last().push(s.last()));
                    assert(full[i][q] == r[i][q]);
                }
            }
            lemma_split_parts_chars(s.drop_last());
            assert(full[full.len() - 1] == r.last().push(s.last()));
            assert(full[full.len() - 1].last() == s.last());
            assert(spec_is_ident_char(s.last()));
            assert forall|j: int| 0 <= j < s.len() implies s[j] == '.' || spec_is_ident_char(
                s[j],
            ) by {
                if j < s.len() - 1 {
                    assert(s.drop_last()[j] == s[j]);
                }
            }
        }
    }
}

/// The tag text `prefix X . Y . Z - pre` used by the round-trip law below.
pub open spec fn spec_tag_of(prefix: Seq<char>, x: u64, y: u64, z: u64, pre: Seq<char>) -> Seq<
    char,
> {
    prefix + spec_dec(x as nat) + seq!['.'] + spec_dec(y as nat) + seq!['.'] + spec_dec(z as nat)
        + seq!['-'] + pre
}

/// Law: for every tag of the shape `vX.Y.Z-pre` — any digit-free prefix,
/// decimal numbers X, Y, Z, and a well-formed pre-release label — cleaning
/// the tag and parsing it as a semantic version yields exactly the
/// components X, Y, Z and pre. Together with the contract of
/// `parse_semver`, this pins the parse of every such tag.
#[verifier::rlimit(100)]
#[verifier::spinoff_prover]
pub proof fn lemma_clean_then_parse(prefix: Seq<char>, x: u64, y: u64, z: u64, pre: Seq<char>)
    requires
        forall|j: int| 0 <= j < prefix.len() ==> !spec_is_digit(prefix[j]),
        pre.len() > 0,
        spec_valid_pre(pre),
    ensures
        spec_valid_semver(spec_clean(spec_tag_of(prefix, x, y, z, pre))),
        spec_major(spec_clean(spec_tag_of(prefix, x, y, z, pre))) == x,
        spec_minor(spec_clean(spec_tag_of(prefix, x, y, z, pre))) == y,
        spec_patch(spec_clean(spec_tag_of(prefix, x, y, z, pre))) == z,
        spec_pre(spec_clean(spec_tag_of(prefix, x, y, z, pre))) == pre,
        spec_has_pre(spec_clean(spec_tag_of(prefix, x, y, z, pre))),
{
    let a = spec_dec(x as nat);
    let b = spec_dec(y as nat);
    let c = spec_dec(z as nat);
    lemma_spec_dec_shape(x as nat);
    lemma_spec_dec_shape(y as nat);
    lemma_spec_dec_shape(z as nat);
    let tag = spec_tag_of(prefix, x, y, z, pre);
    let body = a + seq!['.'] + b + seq!['.'] + c + seq!['-'] + pre;
    assert(tag =~= prefix + body);
    let pl = prefix.len() as int;
    let al = a.len() as int;
    let bl = b.len() as int;
    let cl = c.len() as int;

    // pre-release characters are identifier characters or dots
    assert forall|i: int, q: int|
        0 <= i < split_char(pre, '.').len() && 0 <= q < (#[trigger] split_char(
            pre,
            '.',
        )[i]).len() implies spec_is_ident_char(#[trigger] split_char(pre, '.')[i][q]) by {
        assert(pre_ident_ok(split_char(pre, '.')[i]));
    }
    lemma_split_parts_chars(pre);

    // cleaning strips exactly the prefix
    assert(body[0] == a[0]);
    assert(spec_is_digit(tag[pl]));
    assert forall|j: int| 0 <= j < pl implies !spec_is_digit(tag[j]) by {
        assert(tag[j] == prefix[j]);
    }
    lemma_first_digit_ix_is(tag, pl);
    assert(spec_clean(tag) =~= body);

    // where each separator stands in the body
    let d1 = al;  // first '.'
    let d2 = al + 1 + bl;  // second '.'
    let m = al + 1 + bl + 1 + cl;  // the '-'
    assert(body.len() == m + 1 + pre.len());
    assert forall|j: int| 0 <= j < body.len() implies #[trigger] body[j] == (if j < al {
        a[j]
    } else if j == d1 {
        '.'
    } else if j < d2 {
        b[j - (al + 1)]
    } else if j == d2 {
        '.'
    } else if j < m {
        c[j - (al + 1 + bl + 1)]
    } else if j == m {
        '-'
    } else {
        pre[j - (m + 1)]
    }) by {}

    // no '+' anywhere: the body is its own core-pre part
    assert forall|j: int| 0 <= j < body.len() implies body[j] != '+' by {
        if j > m {
            assert(pre[j - (m + 1)] == '.' || spec_is_ident_char(pre[j - (m + 1)]));
        }
    }
    lemma_first_ix_is(body, '+', body.len() as int);
    assert(spec_core_pre(body) =~= body);
    assert(!spec_has_build(body));

    // the first '-' ends the numeric core
    assert forall|j: int| 0 <= j < m implies body[j] != '-' by {}
    lemma_first_ix_is(body, '-', m);
    assert(spec_has_pre(body));
    assert(spec_pre(body) =~= pre);
    let core = spec_core(body);
    assert(core =~= a + seq!['.'] + b + seq!['.'] + c);

    // the dots split the core into the three numbers
    assert forall|j: int| 0 <= j < core.len() implies #[trigger] core[j] == body[j] by {}
    assert forall|j: int| 0 <= j < d1 implies core[j] != '.' by {}
    lemma_first_ix_is(core, '.', d1);
    assert(spec_maj_part(body) =~= a);
    let rest = spec_mid_rest(body);
    assert(rest =~= b + seq!['.'] + c);
    assert forall|j: int| 0 <= j < bl implies rest[j] != '.' by {
        assert(rest[j] == b[j]);
    }
    assert(rest[bl] == '.');
    lemma_first_ix_is(rest, '.', bl);
    assert(spec_min_part(body) =~= b);
    assert(spec_pat_part(body) =~= c);
}

/// Law: the fail-safe version `0.0.0` that an unparsable tag yields is
/// outdated relative to every version with any nonzero numeric component.
/// (It is not below `0.0.0` itself, nor below a pre-release of `0.0.0`.)
pub proof fn lemma_zero_version_outdated(zero: Version, v: Version)
    requires
        zero.major == 0,
        zero.minor == 0,
        zero.patch == 0,
        zero.pre@.len() == 0,
        v.major > 0 || v.minor > 0 || v.patch > 0,
    ensures
        spec_version_lt(zero, v),
{
}

} // verus!
