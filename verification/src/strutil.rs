//! Character and string helpers shared by the scanner, the value parsers
//! and the macro expander.
//!
//! Whitespace here means ASCII whitespace; lower-casing maps the ASCII
//! letters only. Both conventions are deliberate: the grammar this library
//! gives to its input is stated over these spec functions.

use vstd::prelude::*;

verus! {

/// The views of a sequence of strings.
pub open spec fn strs_view(v: Seq<String>) -> Seq<Seq<char>> {
    v.map_values(|s: String| s@)
}

/// ASCII whitespace.
pub open spec fn is_space_c(c: char) -> bool {
    c == ' ' || c == '\t' || c == '\n' || c == '\r' || c == '\u{b}' || c == '\u{c}'
}

pub fn is_space(c: char) -> (b: bool)
    ensures
        b == is_space_c(c),
{
    c == ' ' || c == '\t' || c == '\n' || c == '\r' || c == '\u{b}' || c == '\u{c}'
}

/// The suffix of `s` that remains after the leading whitespace.
pub open spec fn trim_start_seq(s: Seq<char>) -> Seq<char>
    decreases s.len(),
{
    if s.len() == 0 {
        s
    } else if is_space_c(s[0]) {
        trim_start_seq(s.skip(1))
    } else {
        s
    }
}

/// The prefix of `s` that remains after the trailing whitespace.
pub open spec fn trim_end_seq(s: Seq<char>) -> Seq<char>
    decreases s.len(),
{
    if s.len() == 0 {
        s
    } else if is_space_c(s[s.len() - 1]) {
        trim_end_seq(s.take(s.len() - 1))
    } else {
        s
    }
}

pub open spec fn trim_seq(s: Seq<char>) -> Seq<char> {
    trim_end_seq(trim_start_seq(s))
}

pub open spec fn is_blank_seq(s: Seq<char>) -> bool {
    forall|i: int| 0 <= i < s.len() ==> is_space_c(s[i])
}

/// ASCII lower-casing of one character.
pub open spec fn ascii_lower_char(c: char) -> char {
    if 65 <= c as u32 && c as u32 <= 90 {
        ((c as u32 + 32) as char)
    } else {
        c
    }
}

pub open spec fn lower_seq(s: Seq<char>) -> Seq<char> {
    Seq::new(s.len(), |i: int| ascii_lower_char(s[i]))
}

/// `pat` occurs in `s` starting at position `i`.
pub open spec fn sub_at(s: Seq<char>, i: int, pat: Seq<char>) -> bool {
    &&& 0 <= i
    &&& i + pat.len() <= s.len()
    &&& s.subrange(i, i + pat.len()) == pat
}

/// The first position at or after `from` where `c` occurs.
pub open spec fn find_char_spec(s: Seq<char>, c: char, from: int) -> Option<int>
    decreases s.len() - from,
{
    if from < 0 || from >= s.len() {
        None
    } else if s[from] == c {
        Some(from)
    } else {
        find_char_spec(s, c, from + 1)
    }
}

/// The first position at or after `from` where `pat` occurs.
pub open spec fn find_sub_spec(s: Seq<char>, pat: Seq<char>, from: int) -> Option<int>
    decreases s.len() + 1 - from,
{
    if from < 0 || from + pat.len() > s.len() {
        None
    } else if sub_at(s, from, pat) {
        Some(from)
    } else {
        find_sub_spec(s, pat, from + 1)
    }
}

pub open spec fn contains_sub(s: Seq<char>, pat: Seq<char>) -> bool {
    find_sub_spec(s, pat, 0) is Some
}

pub open spec fn ends_with_seq(s: Seq<char>, pat: Seq<char>) -> bool {
    pat.len() <= s.len() && sub_at(s, s.len() - pat.len(), pat)
}

/// The decimal digits of `n`, most significant first.
pub open spec fn dec_str(n: nat) -> Seq<char>
    decreases n,
{
    if n < 10 {
        seq![digit_char(n)]
    } else {
        dec_str(n / 10).push(digit_char(n % 10))
    }
}

/// The decimal digit character for `d` (which recommends `d < 10`).
pub open spec fn digit_char(d: nat) -> char
    recommends
        d < 10,
{
    (((48 + d) as u32) as char)
}

/// Relies on std's `String::push`: it appends exactly the one character.
#[verifier::external_body]
pub(crate) fn push_char(s: &mut String, c: char)
    ensures
        final(s)@ == old(s)@.push(c),
{
    s.push(c);
}

pub fn str_eq(a: &str, b: &str) -> (r: bool)
    ensures
        r == (a@ == b@),
{
    let alen = a.unicode_len();
    let blen = b.unicode_len();
    if alen != blen {
        assert(a@ != b@) by {
            assert(a@.len() != b@.len());
        }
        return false;
    }
    let mut i: usize = 0;
    while i < alen
        invariant
            i <= alen,
            alen == a@.len(),
            alen == b@.len(),
            forall|k: int| 0 <= k < i ==> a@[k] == b@[k],
        decreases alen - i,
    {
        if a.get_char(i) != b.get_char(i) {
            return false;
        }
        i += 1;
    }
    assert(a@ =~= b@);
    true
}

/// `pat` occurs in `s` at position `i`.
pub fn match_at(s: &str, i: usize, pat: &str) -> (r: bool)
    ensures
        r == sub_at(s@, i as int, pat@),
{
    let slen = s.unicode_len();
    let plen = pat.unicode_len();
    if plen > slen || i > slen - plen {
        return false;
    }
    let mut k: usize = 0;
    while k < plen
        invariant
            k <= plen,
            i + plen <= slen,
            slen == s@.len(),
            plen == pat@.len(),
            forall|j: int| 0 <= j < k ==> s@[i + j] == pat@[j],
        decreases plen - k,
    {
        if s.get_char(i + k) != pat.get_char(k) {
            assert(s@.subrange(i as int, i + plen) != pat@) by {
                assert(s@.subrange(i as int, i + plen)[k as int] == s@[i + k]);
            }
            return false;
        }
        k += 1;
    }
    assert(s@.subrange(i as int, i + plen) =~= pat@);
    true
}

proof fn lemma_find_char_step(s: Seq<char>, c: char, from: int, i: int)
    requires
        0 <= from <= i <= s.len(),
        forall|k: int| from <= k < i ==> s[k] != c,
    ensures
        find_char_spec(s, c, from) == find_char_spec(s, c, i),
    decreases i - from,
{
    if from < i {
        lemma_find_char_step(s, c, from + 1, i);
    }
}

/// What `find_char_spec` returning an answer means position by position.
pub proof fn lemma_find_char_props(s: Seq<char>, c: char, from: int)
    requires
        0 <= from,
    ensures
        match find_char_spec(s, c, from) {
            Some(k) => from <= k < s.len() && s[k] == c && forall|p: int|
                from <= p < k ==> s[p] != c,
            None => forall|p: int| from <= p < s.len() ==> s[p] != c,
        },
    decreases s.len() - from,
{
    if from < s.len() {
        if s[from] != c {
            lemma_find_char_props(s, c, from + 1);
        }
    }
}

/// A first occurrence pins `find_char_spec` down.
pub proof fn lemma_find_char_from_witness(s: Seq<char>, c: char, from: int, k: int)
    requires
        0 <= from <= k < s.len(),
        s[k] == c,
        forall|p: int| from <= p < k ==> s[p] != c,
    ensures
        find_char_spec(s, c, from) == Some(k),
{
    lemma_find_char_step(s, c, from, k);
}

pub fn find_char(s: &str, c: char, from: usize) -> (r: Option<usize>)
    ensures
        match r {
            Some(j) => find_char_spec(s@, c, from as int) == Some(j as int),
            None => find_char_spec(s@, c, from as int) is None,
        },
{
    let slen = s.unicode_len();
    let mut i: usize = from;
    while i < slen
        invariant
            from <= i,
            slen == s@.len(),
            i <= slen || i == from,
            forall|k: int| from <= k < i ==> s@[k] != c,
        decreases slen - i,
    {
        if s.get_char(i) == c {
            proof {
                lemma_find_char_step(s@, c, from as int, i as int);
            }
            return Some(i);
        }
        i += 1;
    }
    proof {
        if from as int <= s@.len() {
            lemma_find_char_step(s@, c, from as int, i as int);
        }
    }
    None
}

proof fn lemma_find_sub_step(s: Seq<char>, pat: Seq<char>, from: int, i: int)
    requires
        0 <= from <= i,
        forall|k: int| from <= k < i ==> !sub_at(s, k, pat),
    ensures
        find_sub_spec(s, pat, from) == find_sub_spec(s, pat, i),
    decreases i - from,
{
    if from < i {
        lemma_find_sub_step(s, pat, from + 1, i);
    }
}

/// What `find_sub_spec` returning an answer means position by position.
pub proof fn lemma_find_sub_props(s: Seq<char>, pat: Seq<char>, from: int)
    requires
        0 <= from,
    ensures
        match find_sub_spec(s, pat, from) {
            Some(k) => from <= k && sub_at(s, k, pat) && forall|p: int|
                from <= p < k ==> !sub_at(s, p, pat),
            None => forall|p: int| p >= from ==> !sub_at(s, p, pat),
        },
    decreases s.len() + 1 - from,
{
    if from + pat.len() > s.len() {
        assert forall|p: int| p >= from implies !sub_at(s, p, pat) by {
            if p + pat.len() <= s.len() {
                assert(p < from);
            }
        }
    } else if !sub_at(s, from, pat) {
        lemma_find_sub_props(s, pat, from + 1);
    }
}

pub fn find_sub(s: &str, pat: &str, from: usize) -> (r: Option<usize>)
    ensures
        match r {
            Some(j) => find_sub_spec(s@, pat@, from as int) == Some(j as int),
            None => find_sub_spec(s@, pat@, from as int) is None,
        },
{
    let slen = s.unicode_len();
    let plen = pat.unicode_len();
    if plen > slen || from > slen - plen {
        return None;
    }
    if plen == 0 {
        assert(sub_at(s@, from as int, pat@)) by {
            assert(s@.subrange(from as int, from as int) =~= pat@);
        }
        return Some(from);
    }
    let mut i: usize = from;
    while i <= slen - plen
        invariant
            from <= i,
            1 <= plen <= slen,
            from <= slen - plen,
            i <= slen - plen + 1,
            slen == s@.len(),
            plen == pat@.len(),
            forall|k: int| from <= k < i ==> !sub_at(s@, k, pat@),
        decreases slen - plen + 1 - i,
    {
        if match_at(s, i, pat) {
            proof {
                lemma_find_sub_step(s@, pat@, from as int, i as int);
            }
            return Some(i);
        }
        i += 1;
    }
    proof {
        lemma_find_sub_step(s@, pat@, from as int, i as int);
    }
    None
}

pub fn contains(s: &str, pat: &str) -> (r: bool)
    ensures
        r == contains_sub(s@, pat@),
{
    match find_sub(s, pat, 0) {
        Some(_) => true,
        None => false,
    }
}

pub fn starts_with_str(s: &str, pat: &str) -> (r: bool)
    ensures
        r == sub_at(s@, 0, pat@),
{
    match_at(s, 0, pat)
}

pub fn ends_with_str(s: &str, pat: &str) -> (r: bool)
    ensures
        r == ends_with_seq(s@, pat@),
{
    let slen = s.unicode_len();
    let plen = pat.unicode_len();
    if plen > slen {
        return false;
    }
    match_at(s, slen - plen, pat)
}

proof fn lemma_trim_start_skip(s: Seq<char>, a: int)
    requires
        0 <= a <= s.len(),
        forall|k: int| 0 <= k < a ==> is_space_c(s[k]),
        a == s.len() || !is_space_c(s[a]),
    ensures
        trim_start_seq(s) == s.skip(a),
    decreases a,
{
    if a == 0 {
        assert(s.skip(0) =~= s);
    } else {
        lemma_trim_start_skip(s.skip(1), a - 1);
        assert(s.skip(1).skip(a - 1) =~= s.skip(a));
    }
}

proof fn lemma_trim_end_take(s: Seq<char>, b: int)
    requires
        0 <= b <= s.len(),
        forall|k: int| b <= k < s.len() ==> is_space_c(s[k]),
        b == 0 || !is_space_c(s[b - 1]),
    ensures
        trim_end_seq(s) == s.take(b),
    decreases s.len(),
{
    if b == s.len() {
        assert(s.take(b) =~= s);
    } else {
        lemma_trim_end_take(s.take(s.len() - 1), b);
        assert(s.take(s.len() - 1).take(b) =~= s.take(b));
    }
}

pub fn trim(s: &str) -> (r: &str)
    ensures
        r@ == trim_seq(s@),
{
    let slen = s.unicode_len();
    let mut a: usize = 0;
    while a < slen && is_space(s.get_char(a))
        invariant
            a <= slen,
            slen == s@.len(),
            forall|k: int| 0 <= k < a ==> is_space_c(s@[k]),
        decreases slen - a,
    {
        a += 1;
    }
    proof {
        lemma_trim_start_skip(s@, a as int);
    }
    let mut b: usize = slen;
    while b > a && is_space(s.get_char(b - 1))
        invariant
            a <= b <= slen,
            slen == s@.len(),
            forall|k: int| b <= k < slen ==> is_space_c(s@[k]),
        decreases b,
    {
        b -= 1;
    }
    proof {
        let t = s@.skip(a as int);
        lemma_trim_end_take(t, b - a);
        assert(t.take(b - a) =~= s@.subrange(a as int, b as int));
    }
    s.substring_char(a, b)
}

pub fn trim_start(s: &str) -> (r: &str)
    ensures
        r@ == trim_start_seq(s@),
{
    let slen = s.unicode_len();
    let mut a: usize = 0;
    while a < slen && is_space(s.get_char(a))
        invariant
            a <= slen,
            slen == s@.len(),
            forall|k: int| 0 <= k < a ==> is_space_c(s@[k]),
        decreases slen - a,
    {
        a += 1;
    }
    proof {
        lemma_trim_start_skip(s@, a as int);
        assert(s@.subrange(a as int, slen as int) =~= s@.skip(a as int));
    }
    s.substring_char(a, slen)
}

pub fn is_blank(s: &str) -> (r: bool)
    ensures
        r == is_blank_seq(s@),
{
    let slen = s.unicode_len();
    let mut i: usize = 0;
    while i < slen
        invariant
            i <= slen,
            slen == s@.len(),
            forall|k: int| 0 <= k < i ==> is_space_c(s@[k]),
        decreases slen - i,
    {
        if !is_space(s.get_char(i)) {
            return false;
        }
        i += 1;
    }
    true
}

pub fn lower_char(c: char) -> (r: char)
    ensures
        r == ascii_lower_char(c),
{
    let u = c as u32;
    if 65 <= u && u <= 90 {
        ((u as u8) + 32) as char
    } else {
        c
    }
}

pub fn to_lower(s: &str) -> (r: String)
    ensures
        r@ == lower_seq(s@),
{
    let slen = s.unicode_len();
    let mut out = String::new();
    let mut i: usize = 0;
    while i < slen
        invariant
            i <= slen,
            slen == s@.len(),
            out@ == lower_seq(s@).take(i as int),
        decreases slen - i,
    {
        let c = lower_char(s.get_char(i));
        push_char(&mut out, c);
        proof {
            assert(lower_seq(s@).take(i + 1) =~= lower_seq(s@).take(i as int).push(
                ascii_lower_char(s@[i as int]),
            ));
        }
        i += 1;
    }
    proof {
        assert(lower_seq(s@).take(slen as int) =~= lower_seq(s@));
    }
    out
}

/// The decimal rendering of `n`, without padding.
pub fn u32_dec_string(n: u32) -> (r: String)
    ensures
        r@ == dec_str(n as nat),
    decreases n,
{
    if n < 10 {
        let mut out = String::new();
        push_char(&mut out, ((48 + (n as u8)) as char));
        assert(out@ =~= dec_str(n as nat));
        out
    } else {
        assert(n / 10 < n) by {
            assert(n == 10 * (n / 10) + n % 10);
        }
        let mut out = u32_dec_string(n / 10);
        push_char(&mut out, ((48 + ((n % 10) as u8)) as char));
        assert(out@ =~= dec_str(n as nat));
        out
    }
}

} // verus!
