//! Character-level helpers on strings, each with the meaning that the agent's
//! rules rely on stated over the `Seq<char>` view of the text.
use vstd::prelude::*;
use vstd::string::StringExecFns;
use vstd::string::StrSliceExecFns;

verus! {

// ---------------------------------------------------------------------------
// Whitespace and trimming
// ---------------------------------------------------------------------------

/// The characters with the Unicode `White_Space` property (the set that
/// `char::is_whitespace` and `str::trim` use).
pub open spec fn is_white_space(c: char) -> bool {
    let u = c as u32;
    ||| 0x9 <= u <= 0xd
    ||| u == 0x20
    ||| u == 0x85
    ||| u == 0xa0
    ||| u == 0x1680
    ||| 0x2000 <= u <= 0x200a
    ||| u == 0x2028
    ||| u == 0x2029
    ||| u == 0x202f
    ||| u == 0x205f
    ||| u == 0x3000
}

/// Number of whitespace characters at the start of `s`.
pub open spec fn leading_white(s: Seq<char>) -> nat
    decreases s.len(),
{
    if s.len() > 0 && is_white_space(s[0]) {
        1 + leading_white(s.drop_first())
    } else {
        0
    }
}

/// Number of whitespace characters at the end of `s`.
pub open spec fn trailing_white(s: Seq<char>) -> nat
    decreases s.len(),
{
    if s.len() > 0 && is_white_space(s.last()) {
        1 + trailing_white(s.drop_last())
    } else {
        0
    }
}

/// `s` without its leading and trailing whitespace.
pub open spec fn trim_spec(s: Seq<char>) -> Seq<char> {
    let t = s.skip(leading_white(s) as int);
    t.take(t.len() - trailing_white(t))
}

/// Every character of `s` is whitespace (so that trimming leaves nothing).
pub open spec fn is_blank(s: Seq<char>) -> bool {
    forall|i: int| 0 <= i < s.len() ==> is_white_space(#[trigger] s[i])
}

pub proof fn lemma_leading_white(s: Seq<char>, i: int)
    requires
        0 <= i <= s.len(),
        forall|j: int| 0 <= j < i ==> is_white_space(#[trigger] s[j]),
        i == s.len() || !is_white_space(s[i]),
    ensures
        leading_white(s) == i,
    decreases i,
{
    if i > 0 {
        let t = s.drop_first();
        assert forall|j: int| 0 <= j < i - 1 implies is_white_space(#[trigger] t[j]) by {
            assert(t[j] == s[j + 1]);
        }
        if i < s.len() {
            assert(t[i - 1] == s[i]);
        }
        lemma_leading_white(t, i - 1);
    }
}

pub proof fn lemma_trailing_white(s: Seq<char>, j: int)
    requires
        0 <= j <= s.len(),
        forall|k: int| j <= k < s.len() ==> is_white_space(#[trigger] s[k]),
        j == 0 || !is_white_space(s[j - 1]),
    ensures
        trailing_white(s) == s.len() - j,
    decreases s.len() - j,
{
    if j < s.len() {
        let t = s.drop_last();
        assert forall|k: int| j <= k < t.len() implies is_white_space(#[trigger] t[k]) by {
            assert(t[k] == s[k]);
        }
        if j > 0 {
            assert(t[j - 1] == s[j - 1]);
        }
        assert(is_white_space(s[s.len() - 1]));
        lemma_trailing_white(t, j);
    }
}

/// Blank text is exactly the text whose trimmed form is empty.
pub proof fn lemma_blank_iff_trim_empty(s: Seq<char>)
    ensures
        is_blank(s) <==> trim_spec(s).len() == 0,
{
    let n = s.len() as int;
    if is_blank(s) {
        lemma_leading_white(s, n);
        assert(s.skip(n).len() == 0);
        assert(trim_spec(s).len() == 0);
    } else {
        let k = choose|k: int| 0 <= k < s.len() && !is_white_space(s[k]);
        let i = first_non_white(s, 0);
        lemma_first_non_white(s, 0);
        lemma_leading_white(s, i);
        assert(i < s.len());
        let t = s.skip(i);
        assert(!is_white_space(t[0]));
        lemma_trailing_le(t);
        if trailing_white(t) == t.len() {
            lemma_trailing_all(t);
        }
        assert(trim_spec(s).len() == t.len() - trailing_white(t));
    }
}

proof fn lemma_trailing_le(t: Seq<char>)
    ensures
        trailing_white(t) <= t.len(),
    decreases t.len(),
{
    if t.len() > 0 {
        lemma_trailing_le(t.drop_last());
    }
}

proof fn lemma_trailing_all(t: Seq<char>)
    requires
        trailing_white(t) == t.len(),
    ensures
        forall|k: int| 0 <= k < t.len() ==> is_white_space(#[trigger] t[k]),
    decreases t.len(),
{
    if t.len() > 0 {
        let u = t.drop_last();
        lemma_trailing_all(u);
        assert forall|k: int| 0 <= k < t.len() implies is_white_space(#[trigger] t[k]) by {
            if k < u.len() {
                assert(u[k] == t[k]);
            }
        }
    }
}

/// The first position at or after `from` that holds a non-whitespace
/// character (the length if there is none).
spec fn first_non_white(s: Seq<char>, from: int) -> int
    decreases s.len() - from,
{
    if from < 0 || from >= s.len() {
        s.len() as int
    } else if !is_white_space(s[from]) {
        from
    } else {
        first_non_white(s, from + 1)
    }
}

proof fn lemma_first_non_white(s: Seq<char>, from: int)
    requires
        0 <= from <= s.len(),
        forall|j: int| 0 <= j < from ==> is_white_space(#[trigger] s[j]),
    ensures
        from <= first_non_white(s, from) <= s.len(),
        forall|j: int| 0 <= j < first_non_white(s, from) ==> is_white_space(#[trigger] s[j]),
        first_non_white(s, from) == s.len() || !is_white_space(s[first_non_white(s, from)]),
    decreases s.len() - from,
{
    if from < s.len() && is_white_space(s[from]) {
        lemma_first_non_white(s, from + 1);
    }
}

/// Whether `c` has the Unicode `White_Space` property.
pub fn is_white_space_char(c: char) -> (b: bool)
    ensures
        b == is_white_space(c),
{
    let u = c as u32;
    (0x9 <= u && u <= 0xd) || u == 0x20 || u == 0x85 || u == 0xa0 || u == 0x1680 || (0x2000 <= u
        && u <= 0x200a) || u == 0x2028 || u == 0x2029 || u == 0x202f || u == 0x205f || u == 0x3000
}

/// `s` with leading and trailing whitespace removed.
pub fn trim(s: &str) -> (r: &str)
    ensures
        r@ == trim_spec(s@),
{
    let v = chars_of(s);
    let n = v.len();
    let mut i: usize = 0;
    while i < n && is_white_space_char(v[i])
        invariant
            v@ == s@,
            n == v.len(),
            i <= n,
            forall|j: int| 0 <= j < i ==> is_white_space(#[trigger] s@[j]),
        decreases n - i,
    {
        i = i + 1;
    }
    proof {
        lemma_leading_white(s@, i as int);
    }
    let mut j: usize = n;
    while j > i && is_white_space_char(v[j - 1])
        invariant
            v@ == s@,
            n == v.len(),
            i <= j <= n,
            forall|k: int| j <= k < n ==> is_white_space(#[trigger] s@[k]),
        decreases j,
    {
        j = j - 1;
    }
    proof {
        let t = s@.skip(i as int);
        assert forall|k: int| (j - i) <= k < t.len() implies is_white_space(#[trigger] t[k]) by {
            assert(t[k] == s@[k + i]);
        }
        if j > i {
            assert(t[j - i - 1] == s@[j - 1]);
        }
        lemma_trailing_white(t, (j - i) as int);
        assert(trim_spec(s@) =~= s@.subrange(i as int, j as int));
    }
    s.substring_char(i, j)
}

/// Whether every character of `s` is whitespace (the text is empty once
/// trimmed).
pub fn is_blank_str(s: &str) -> (b: bool)
    ensures
        b == is_blank(s@),
        b == (trim_spec(s@).len() == 0),
{
    proof {
        lemma_blank_iff_trim_empty(s@);
    }
    let t = trim(s);
    t.unicode_len() == 0
}

// ---------------------------------------------------------------------------
// Building and comparing strings
// ---------------------------------------------------------------------------

/// Copies the characters of a string slice into a vector.
pub fn chars_of(s: &str) -> (v: Vec<char>)
    ensures
        v@ == s@,
{
    let mut v: Vec<char> = Vec::new();
    for c in it: s.chars()
        invariant
            v@ == it.seq().take(it.index() as int),
            it.seq() == s@,
    {
        v.push(c);
    }
    v
}

/// `String::push`: appends one character at the end.
#[verifier::external_body]
pub(crate) fn push_char(s: &mut String, c: char)
    ensures
        final(s)@ == old(s)@.push(c),
{
    s.push(c);
}

/// A new string holding the characters `v[from..to]`.
pub fn string_from_chars(v: &Vec<char>, from: usize, to: usize) -> (r: String)
    requires
        from <= to <= v.len(),
    ensures
        r@ == v@.subrange(from as int, to as int),
{
    let mut r = String::new();
    let mut i = from;
    while i < to
        invariant
            from <= i <= to <= v.len(),
            r@ == v@.subrange(from as int, i as int),
        decreases to - i,
    {
        push_char(&mut r, v[i]);
        i = i + 1;
        assert(r@ =~= v@.subrange(from as int, i as int));
    }
    r
}

/// A new string holding the text of `s`.
pub fn owned(s: &str) -> (r: String)
    ensures
        r@ == s@,
{
    String::from_str(s)
}

/// Appends `tail` to `s`.
pub fn append_str(s: &mut String, tail: &str)
    ensures
        final(s)@ == old(s)@ + tail@,
{
    s.append(tail);
}

/// Whether two texts are equal.
pub fn str_eq(a: &str, b: &str) -> (r: bool)
    ensures
        r == (a@ == b@),
{
    let va = chars_of(a);
    let vb = chars_of(b);
    if va.len() != vb.len() {
        return false;
    }
    let mut i: usize = 0;
    while i < va.len()
        invariant
            va@ == a@,
            vb@ == b@,
            va.len() == vb.len(),
            i <= va.len(),
            forall|k: int| 0 <= k < i ==> a@[k] == b@[k],
        decreases va.len() - i,
    {
        if va[i] != vb[i] {
            return false;
        }
        i = i + 1;
    }
    assert(a@ =~= b@);
    true
}

/// Whether `s` begins with `prefix`.
pub fn starts_with(s: &str, prefix: &str) -> (r: bool)
    ensures
        r == prefix@.is_prefix_of(s@),
{
    let vs = chars_of(s);
    let vp = chars_of(prefix);
    if vp.len() > vs.len() {
        return false;
    }
    let mut i: usize = 0;
    while i < vp.len()
        invariant
            vs@ == s@,
            vp@ == prefix@,
            vp.len() <= vs.len(),
            i <= vp.len(),
            forall|k: int| 0 <= k < i ==> s@[k] == prefix@[k],
        decreases vp.len() - i,
    {
        if vs[i] != vp[i] {
            return false;
        }
        i = i + 1;
    }
    true
}

/// `s` occurs in `text` starting at position `at`.
pub open spec fn occurs_at(text: Seq<char>, s: Seq<char>, at: int) -> bool {
    0 <= at && at + s.len() <= text.len() && text.subrange(at, at + s.len()) == s
}

/// `s` occurs somewhere in `text`.
pub open spec fn occurs_in(text: Seq<char>, s: Seq<char>) -> bool {
    exists|at: int| occurs_at(text, s, at)
}

/// Whether `pat` occurs at position `at` of the character vector `v`.
pub fn matches_at(v: &Vec<char>, pat: &Vec<char>, at: usize) -> (r: bool)
    ensures
        r == occurs_at(v@, pat@, at as int),
{
    if at > v.len() || pat.len() > v.len() - at {
        return false;
    }
    let mut k: usize = 0;
    while k < pat.len()
        invariant
            at + pat.len() <= v.len(),
            k <= pat.len(),
            forall|m: int| 0 <= m < k ==> v@[at + m] == pat@[m],
        decreases pat.len() - k,
    {
        if v[at + k] != pat[k] {
            assert(v@.subrange(at as int, at + pat.len())[k as int] != pat@[k as int]);
            return false;
        }
        k = k + 1;
    }
    assert(v@.subrange(at as int, at + pat.len()) =~= pat@);
    true
}

/// Whether `pat` occurs anywhere in `text`.
pub fn contains_str(text: &str, pat: &str) -> (r: bool)
    ensures
        r == occurs_in(text@, pat@),
{
    let v = chars_of(text);
    let p = chars_of(pat);
    if p.len() > v.len() {
        return false;
    }
    let limit = v.len() - p.len();
    let mut at: usize = 0;
    loop
        invariant
            v@ == text@,
            p@ == pat@,
            limit == v.len() - p.len(),
            at <= limit,
            forall|a: int| 0 <= a < at ==> !occurs_at(text@, pat@, a),
        decreases limit - at,
    {
        if matches_at(&v, &p, at) {
            return true;
        }
        if at == limit {
            assert forall|a: int| !occurs_at(text@, pat@, a) by {
                if 0 <= a <= at {
                }
            }
            return false;
        }
        at = at + 1;
    }
}

// ---------------------------------------------------------------------------
// ASCII case
// ---------------------------------------------------------------------------

/// ASCII lower case of one character; other characters stay as they are.
pub open spec fn ascii_lower(c: char) -> char {
    if 65 <= c as u32 <= 90 {
        ((c as u32 + 32) as u8) as char
    } else {
        c
    }
}

/// ASCII lower case of a text (`str::to_ascii_lowercase`).
pub open spec fn ascii_lower_seq(s: Seq<char>) -> Seq<char> {
    s.map_values(|c: char| ascii_lower(c))
}

/// Whether `s`, taken in ASCII lower case, begins with `prefix`.
pub fn starts_with_ascii_lower(s: &str, prefix: &str) -> (r: bool)
    ensures
        r == prefix@.is_prefix_of(ascii_lower_seq(s@)),
{
    let vs = chars_of(s);
    let vp = chars_of(prefix);
    if vp.len() > vs.len() {
        return false;
    }
    let mut i: usize = 0;
    while i < vp.len()
        invariant
            vs@ == s@,
            vp@ == prefix@,
            vp.len() <= vs.len(),
            i <= vp.len(),
            forall|k: int| 0 <= k < i ==> ascii_lower(s@[k]) == prefix@[k],
        decreases vp.len() - i,
    {
        let c = vs[i];
        let u = c as u32;
        let lc = if 65 <= u && u <= 90 {
            ((u + 32) as u8) as char
        } else {
            c
        };
        if lc != vp[i] {
            assert(ascii_lower_seq(s@)[i as int] == ascii_lower(s@[i as int]));
            return false;
        }
        i = i + 1;
    }
    assert forall|k: int| 0 <= k < prefix@.len() implies ascii_lower_seq(s@)[k] == prefix@[k] by {
        assert(ascii_lower_seq(s@)[k] == ascii_lower(s@[k]));
    }
    true
}

// ---------------------------------------------------------------------------
// Decimal numbers
// ---------------------------------------------------------------------------

/// The ASCII digit for `d`.
pub open spec fn digit_char(d: nat) -> char
    recommends
        d < 10,
{
    ((d + 48) as u8) as char
}

/// Decimal representation of a natural number, without leading zeros.
pub open spec fn decimal(n: nat) -> Seq<char>
    decreases n,
{
    if n < 10 {
        seq![digit_char(n)]
    } else {
        decimal(n / 10).push(digit_char(n % 10))
    }
}

/// Decimal representation of an integer, with `-` in front of a negative one.
pub open spec fn signed_decimal(n: int) -> Seq<char> {
    if n < 0 {
        seq!['-'] + decimal((-n) as nat)
    } else {
        decimal(n as nat)
    }
}

/// The decimal text of `n` (as `u64::to_string` writes it).
pub fn u64_to_decimal(n: u64) -> (r: String)
    ensures
        r@ == decimal(n as nat),
{
    let mut digits: Vec<char> = Vec::new();
    let mut m: u64 = n;
    loop
        invariant_except_break
            decimal(n as nat) == decimal(m as nat) + digits@.reverse(),
        ensures
            decimal(n as nat) == digits@.reverse(),
        decreases m,
    {
        let d = (m % 10) as u8;
        let c = (d + 48) as char;
        assert(c == digit_char((m % 10) as nat));
        let ghost before = digits@;
        digits.push(c);
        assert(digits@.reverse() =~= seq![c] + before.reverse());
        if m < 10 {
            assert(decimal(m as nat) == seq![c]);
            break;
        }
        assert(decimal(m as nat) == decimal((m / 10) as nat).push(c));
        assert(decimal(m as nat) + before.reverse() =~= decimal((m / 10) as nat) + digits@.reverse());
        m = m / 10;
    }
    let mut r = String::new();
    let mut i = digits.len();
    while i > 0
        invariant
            i <= digits.len(),
            decimal(n as nat) == digits@.reverse(),
            r@ == digits@.reverse().subrange(0, digits.len() - i),
        decreases i,
    {
        i = i - 1;
        push_char(&mut r, digits[i]);
        assert(digits@.reverse()[digits.len() - i - 1] == digits@[i as int]);
        assert(r@ =~= digits@.reverse().subrange(0, digits.len() - i));
    }
    assert(r@ =~= digits@.reverse());
    r
}

/// The decimal text of `n`, with `-` in front of a negative number (as
/// `i64::to_string` writes it).
pub fn i64_to_decimal(n: i64) -> (r: String)
    ensures
        r@ == signed_decimal(n as int),
{
    if n < 0 {
        let m: u64 = (0i128 - n as i128) as u64;
        assert(m as int == -(n as int));
        proof {
            reveal_strlit("-");
        }
        let mut r = owned("-");
        let digits = u64_to_decimal(m);
        append_str(&mut r, digits.as_str());
        assert(r@ =~= signed_decimal(n as int));
        r
    } else {
        u64_to_decimal(n as u64)
    }
}

// ---------------------------------------------------------------------------
// Cutting at a separator
// ---------------------------------------------------------------------------

/// `s` without the characters `c` at its end (`str::trim_end_matches(c)`).
pub open spec fn strip_trailing(s: Seq<char>, c: char) -> Seq<char>
    decreases s.len(),
{
    if s.len() > 0 && s.last() == c {
        strip_trailing(s.drop_last(), c)
    } else {
        s
    }
}

/// The part of `s` before the first `c`, or all of `s` when it holds no `c`
/// (the first piece of `str::split(c)`).
pub open spec fn before_first(s: Seq<char>, c: char) -> Seq<char>
    decreases s.len(),
{
    if s.len() == 0 {
        s
    } else if s[0] == c {
        Seq::empty()
    } else {
        seq![s[0]] + before_first(s.drop_first(), c)
    }
}

/// The part of `s` after the last `c`, or all of `s` when it holds no `c`
/// (the first piece of `str::rsplit(c)`).
pub open spec fn after_last(s: Seq<char>, c: char) -> Seq<char>
    decreases s.len(),
{
    if s.len() == 0 {
        s
    } else if s.last() == c {
        Seq::empty()
    } else {
        after_last(s.drop_last(), c).push(s.last())
    }
}

proof fn lemma_strip_trailing(s: Seq<char>, c: char, j: int)
    requires
        0 <= j <= s.len(),
        forall|k: int| j <= k < s.len() ==> #[trigger] s[k] == c,
        j == 0 || s[j - 1] != c,
    ensures
        strip_trailing(s, c) == s.take(j),
    decreases s.len() - j,
{
    if j < s.len() {
        let t = s.drop_last();
        assert forall|k: int| j <= k < t.len() implies #[trigger] t[k] == c by {
            assert(t[k] == s[k]);
        }
        if j > 0 {
            assert(t[j - 1] == s[j - 1]);
        }
        lemma_strip_trailing(t, c, j);
        assert(t.take(j) =~= s.take(j));
    } else {
        assert(s.take(j) =~= s);
    }
}

proof fn lemma_before_first(s: Seq<char>, c: char, i: int)
    requires
        0 <= i <= s.len(),
        forall|k: int| 0 <= k < i ==> #[trigger] s[k] != c,
        i == s.len() || s[i] == c,
    ensures
        before_first(s, c) == s.take(i),
    decreases i,
{
    if i == 0 {
        assert(s.take(0) =~= Seq::<char>::empty());
    } else {
        let t = s.drop_first();
        assert forall|k: int| 0 <= k < i - 1 implies #[trigger] t[k] != c by {
            assert(t[k] == s[k + 1]);
        }
        if i < s.len() {
            assert(t[i - 1] == s[i]);
        }
        assert(s[0] != c);
        lemma_before_first(t, c, i - 1);
        assert(seq![s[0]] + t.take(i - 1) =~= s.take(i));
    }
}

proof fn lemma_after_last(s: Seq<char>, c: char, j: int)
    requires
        0 <= j <= s.len(),
        forall|k: int| j <= k < s.len() ==> #[trigger] s[k] != c,
        j == 0 || s[j - 1] == c,
    ensures
        after_last(s, c) == s.skip(j),
    decreases s.len() - j,
{
    if j == s.len() {
        assert(s.skip(j) =~= Seq::<char>::empty());
    } else {
        let t = s.drop_last();
        assert forall|k: int| j <= k < t.len() implies #[trigger] t[k] != c by {
            assert(t[k] == s[k]);
        }
        if j > 0 {
            assert(t[j - 1] == s[j - 1]);
        }
        assert(s.last() != c);
        lemma_after_last(t, c, j);
        assert(t.skip(j).push(s.last()) =~= s.skip(j));
    }
}

/// `s` without the characters `c` at its end.
pub fn strip_trailing_char(s: &str, c: char) -> (r: String)
    ensures
        r@ == strip_trailing(s@, c),
{
    let v = chars_of(s);
    let mut j = v.len();
    while j > 0 && v[j - 1] == c
        invariant
            v@ == s@,
            j <= v.len(),
            forall|k: int| j <= k < v.len() ==> #[trigger] s@[k] == c,
        decreases j,
    {
        j = j - 1;
    }
    proof {
        lemma_strip_trailing(s@, c, j as int);
    }
    string_from_chars(&v, 0, j)
}

/// The part of `s` before the first `c` (all of `s` if there is none).
pub fn text_before_first(s: &str, c: char) -> (r: String)
    ensures
        r@ == before_first(s@, c),
{
    let v = chars_of(s);
    let mut i: usize = 0;
    while i < v.len() && v[i] != c
        invariant
            v@ == s@,
            i <= v.len(),
            forall|k: int| 0 <= k < i ==> #[trigger] s@[k] != c,
        decreases v.len() - i,
    {
        i = i + 1;
    }
    proof {
        lemma_before_first(s@, c, i as int);
    }
    string_from_chars(&v, 0, i)
}

/// The part of `s` after the last `c` (all of `s` if there is none).
pub fn text_after_last(s: &str, c: char) -> (r: String)
    ensures
        r@ == after_last(s@, c),
{
    let v = chars_of(s);
    let mut j = v.len();
    while j > 0 && v[j - 1] != c
        invariant
            v@ == s@,
            j <= v.len(),
            forall|k: int| j <= k < v.len() ==> #[trigger] s@[k] != c,
        decreases j,
    {
        j = j - 1;
    }
    proof {
        lemma_after_last(s@, c, j as int);
    }
    let n = v.len();
    string_from_chars(&v, j, n)
}


// ---------------------------------------------------------------------------
// Time texts
// ---------------------------------------------------------------------------

/// An ASCII digit.
pub open spec fn is_digit(c: char) -> bool {
    '0' <= c && c <= '9'
}

/// The characters `[from, to)` of `s` are ASCII digits.
pub open spec fn digits_between(s: Seq<char>, from: int, to: int) -> bool {
    forall|i: int| from <= i < to ==> is_digit(#[trigger] s[i])
}

/// The shape of a `%Y%m%d-%H%M%S` stamp: digits, with a `-` before the last
/// six (the time). The year is four digits for 0 to 9999; outside that range
/// it carries a sign and more digits.
pub open spec fn is_time_stamp(s: Seq<char>) -> bool {
    &&& s.len() >= 15
    &&& s[s.len() - 7] == '-'
    &&& (is_digit(s[0]) || s[0] == '+' || s[0] == '-')
    &&& is_digit(s[0]) ==> s.len() == 15
    &&& forall|i: int| 1 <= i < s.len() && i != s.len() - 7 ==> is_digit(#[trigger] s[i])
}

/// `s` is an RFC 3339 time whose year takes `y` characters and whose
/// fraction of a second takes `f` (the `.` included): the year (four
/// digits, or a sign and at least four digits outside 0 to 9999), `-MM-DD`,
/// `T`, `HH:MM:SS`, no fraction or one of 3, 6 or 9 digits, and the offset
/// `+HH:MM` or `-HH:MM`.
pub open spec fn rfc3339_shape(s: Seq<char>, y: int, f: int) -> bool {
    let o = y + 15 + f;
    &&& s.len() == o + 6
    &&& (y == 4 && digits_between(s, 0, 4)) || (y >= 5 && (s[0] == '+' || s[0] == '-')
        && digits_between(s, 1, y))
    &&& s[y] == '-' && digits_between(s, y + 1, y + 3) && s[y + 3] == '-'
    &&& digits_between(s, y + 4, y + 6) && s[y + 6] == 'T'
    &&& digits_between(s, y + 7, y + 9) && s[y + 9] == ':'
    &&& digits_between(s, y + 10, y + 12) && s[y + 12] == ':'
    &&& digits_between(s, y + 13, y + 15)
    &&& f == 0 || ((f == 4 || f == 7 || f == 10) && s[y + 15] == '.' && digits_between(
        s,
        y + 16,
        o,
    ))
    &&& (s[o] == '+' || s[o] == '-') && digits_between(s, o + 1, o + 3) && s[o + 3] == ':'
    &&& digits_between(s, o + 4, o + 6)
}

/// `s` is an RFC 3339 time as chrono's `to_rfc3339` writes it.
pub open spec fn is_rfc3339(s: Seq<char>) -> bool {
    exists|y: int, f: int| #[trigger] rfc3339_shape(s, y, f)
}

} // verus!
