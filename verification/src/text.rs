//! Character-level helpers on strings: decimal rendering, ASCII case folding,
//! searching and trimming.
use vstd::prelude::*;
use vstd::string::*;

verus! {

/// The character of a decimal digit.
pub open spec fn digit_char(d: nat) -> char {
    ((48 + d) as u8) as char
}

/// Decimal rendering of a natural number, most significant digit first,
/// without leading zeros.
pub open spec fn decimal(n: nat) -> Seq<char>
    decreases n,
{
    if n < 10 {
        seq![digit_char(n)]
    } else {
        decimal(n / 10).push(digit_char(n % 10))
    }
}

/// Appends one character to a string (std's `String::push`).
#[verifier::external_body]
pub(crate) fn push_char(s: &mut String, c: char)
    ensures
        final(s)@ == old(s)@.push(c),
{
    s.push(c);
}

/// Renders `n` in decimal.
pub fn decimal_string(n: u64) -> (s: String)
    ensures
        s@ == decimal(n as nat),
    decreases n,
{
    if n < 10 {
        let mut s = String::new();
        let c = (48u8 + n as u8) as char;
        push_char(&mut s, c);
        assert(s@ =~= seq![digit_char(n as nat)]);
        s
    } else {
        let mut s = decimal_string(n / 10);
        let d = (n % 10) as u8;
        push_char(&mut s, (48u8 + d) as char);
        s
    }
}

} // verus!

verus! {

/// ASCII lower-casing of one character: `A`..=`Z` map to `a`..=`z`, every
/// other character is kept.
pub open spec fn lower_char(c: char) -> char {
    if 65 <= (c as u32) && (c as u32) <= 90 {
        ((c as u32) + 32) as char
    } else {
        c
    }
}

/// ASCII lower-casing of a whole character sequence.
pub open spec fn ascii_lower(s: Seq<char>) -> Seq<char> {
    Seq::new(s.len(), |i: int| lower_char(s[i]))
}

/// Lower-cases one character as `char::to_ascii_lowercase` does.
pub fn lower_ascii_char(c: char) -> (r: char)
    ensures
        r == lower_char(c),
{
    let v = c as u32;
    if 65 <= v && v <= 90 {
        let b = (v + 32) as u8;
        b as char
    } else {
        c
    }
}

/// The string with every ASCII upper-case letter replaced by its lower-case
/// form (as `str::to_ascii_lowercase`).
pub fn to_ascii_lowercase(s: &str) -> (r: String)
    ensures
        r@ == ascii_lower(s@),
{
    let n = s.unicode_len();
    let mut r = String::new();
    let mut i: usize = 0;
    while i < n
        invariant
            n == s@.len(),
            i <= n,
            r@ =~= ascii_lower(s@.take(i as int)),
        decreases n - i,
    {
        let c = s.get_char(i);
        push_char(&mut r, lower_ascii_char(c));
        i = i + 1;
    }
    assert(s@.take(n as int) =~= s@);
    r
}

/// Whether two strings are equal up to ASCII case (as `str::eq_ignore_ascii_case`).
pub fn eq_ignore_ascii_case(a: &str, b: &str) -> (r: bool)
    ensures
        r == (ascii_lower(a@) == ascii_lower(b@)),
{
    let n = a.unicode_len();
    let m = b.unicode_len();
    if n != m {
        assert(ascii_lower(a@).len() != ascii_lower(b@).len());
        return false;
    }
    let mut i: usize = 0;
    while i < n
        invariant
            n == a@.len(),
            m == b@.len(),
            n == m,
            i <= n,
            forall|j: int| 0 <= j < i ==> lower_char(a@[j]) == lower_char(b@[j]),
        decreases n - i,
    {
        let ca = lower_ascii_char(a.get_char(i));
        let cb = lower_ascii_char(b.get_char(i));
        if ca != cb {
            assert(ascii_lower(a@)[i as int] != ascii_lower(b@)[i as int]);
            return false;
        }
        i = i + 1;
    }
    assert(ascii_lower(a@) =~= ascii_lower(b@));
    true
}

/// Index of the first occurrence of `c` in `s`, or the length of `s` when it
/// does not occur.
pub open spec fn first_or_len(s: Seq<char>, c: char) -> nat
    decreases s.len(),
{
    if s.len() == 0 {
        0
    } else if s[0] == c {
        0
    } else {
        1 + first_or_len(s.drop_first(), c)
    }
}

/// `first_or_len` is the index characterised by "no earlier occurrence, and
/// an occurrence there unless it is the end".
pub proof fn lemma_first_or_len(s: Seq<char>, c: char)
    ensures
        first_or_len(s, c) <= s.len(),
        forall|j: int| 0 <= j < first_or_len(s, c) ==> s[j] != c,
        first_or_len(s, c) < s.len() ==> s[first_or_len(s, c) as int] == c,
    decreases s.len(),
{
    if s.len() > 0 && s[0] != c {
        lemma_first_or_len(s.drop_first(), c);
        assert forall|j: int| 0 <= j < first_or_len(s, c) implies s[j] != c by {
            if j > 0 {
                assert(s[j] == s.drop_first()[j - 1]);
            }
        }
    }
}

/// The characterisation of `lemma_first_or_len` determines the index.
pub proof fn lemma_first_or_len_unique(s: Seq<char>, c: char, i: int)
    requires
        0 <= i <= s.len(),
        forall|j: int| 0 <= j < i ==> s[j] != c,
        i < s.len() ==> s[i] == c,
    ensures
        first_or_len(s, c) == i,
{
    lemma_first_or_len(s, c);
    let k = first_or_len(s, c) as int;
    if k < i {
        assert(s[k] == c);
    } else if i < k {
        assert(s[i] != c);
    }
}

/// Searches `s` for `c` from position `from`: the first index at or after
/// `from` holding `c`, or the length of `s`.
pub fn find_char_from(s: &str, c: char, from: usize) -> (r: usize)
    requires
        from <= s@.len(),
    ensures
        from <= r <= s@.len(),
        r == from + first_or_len(s@.skip(from as int), c),
{
    let n = s.unicode_len();
    let mut i = from;
    while i < n
        invariant
            n == s@.len(),
            from <= i <= n,
            forall|j: int| from <= j < i ==> s@[j] != c,
        decreases n - i,
    {
        if s.get_char(i) == c {
            proof {
                lemma_first_or_len_unique(s@.skip(from as int), c, i - from);
            }
            return i;
        }
        i = i + 1;
    }
    proof {
        lemma_first_or_len_unique(s@.skip(from as int), c, n - from);
    }
    n
}

/// Whether `pat` occurs in `s` starting at position `i`.
pub open spec fn occurs_at(s: Seq<char>, pat: Seq<char>, i: int) -> bool {
    0 <= i && i + pat.len() <= s.len() && s.subrange(i, i + pat.len()) == pat
}

/// Whether `pat` occurs in `s` at position `i`, checked character by character.
pub fn matches_at(s: &str, pat: &str, i: usize) -> (r: bool)
    requires
        i <= s@.len(),
    ensures
        r == occurs_at(s@, pat@, i as int),
{
    let n = s.unicode_len();
    let m = pat.unicode_len();
    if m > n - i {
        return false;
    }
    let mut k: usize = 0;
    while k < m
        invariant
            n == s@.len(),
            m == pat@.len(),
            i + m <= n,
            k <= m,
            forall|j: int| 0 <= j < k ==> s@[i + j] == pat@[j],
        decreases m - k,
    {
        if s.get_char(i + k) != pat.get_char(k) {
            assert(s@.subrange(i as int, i + m)[k as int] != pat@[k as int]);
            return false;
        }
        k = k + 1;
    }
    assert(s@.subrange(i as int, i + m) =~= pat@);
    true
}

/// The first position at or after `from` where `pat` occurs in `s`.
pub fn find_str_from(s: &str, pat: &str, from: usize) -> (r: Option<usize>)
    requires
        from <= s@.len(),
    ensures
        match r {
            Some(i) => from <= i && occurs_at(s@, pat@, i as int)
                && forall|j: int| from <= j < i ==> !occurs_at(s@, pat@, j),
            None => forall|j: int| from <= j ==> !occurs_at(s@, pat@, j),
        },
{
    let n = s.unicode_len();
    let mut i = from;
    while i <= n
        invariant
            n == s@.len(),
            from <= i,
            i <= n + 1,
            forall|j: int| from <= j < i ==> !occurs_at(s@, pat@, j),
        decreases n + 1 - i,
    {
        if matches_at(s, pat, i) {
            return Some(i);
        }
        if i == n {
            assert forall|j: int| from <= j implies !occurs_at(s@, pat@, j) by {
                if j > n {
                    assert(!(j + pat@.len() <= s@.len()));
                }
            }
            return None;
        }
        i = i + 1;
    }
    None
}

} // verus!

verus! {

/// The Unicode `White_Space` property, which `char::is_whitespace` tests.
pub open spec fn is_ws(c: char) -> bool {
    let v = c as u32;
    (9 <= v && v <= 13) || v == 32 || v == 0x85 || v == 0xA0 || v == 0x1680 || (0x2000 <= v && v
        <= 0x200A) || v == 0x2028 || v == 0x2029 || v == 0x202F || v == 0x205F || v == 0x3000
}

/// Tests the Unicode `White_Space` property of one character.
pub fn is_whitespace(c: char) -> (r: bool)
    ensures
        r == is_ws(c),
{
    let v = c as u32;
    (9 <= v && v <= 13) || v == 32 || v == 0x85 || v == 0xA0 || v == 0x1680 || (0x2000 <= v && v
        <= 0x200A) || v == 0x2028 || v == 0x2029 || v == 0x202F || v == 0x205F || v == 0x3000
}

/// `s` without its leading white space.
pub open spec fn trim_start(s: Seq<char>) -> Seq<char>
    decreases s.len(),
{
    if s.len() > 0 && is_ws(s[0]) {
        trim_start(s.drop_first())
    } else {
        s
    }
}

/// `s` without its trailing white space.
pub open spec fn trim_end(s: Seq<char>) -> Seq<char>
    decreases s.len(),
{
    if s.len() > 0 && is_ws(s.last()) {
        trim_end(s.drop_last())
    } else {
        s
    }
}

/// `s` without leading and trailing white space (as `str::trim`).
pub open spec fn trim(s: Seq<char>) -> Seq<char> {
    trim_end(trim_start(s))
}

proof fn lemma_trim_start_at(s: Seq<char>, i: int)
    requires
        0 <= i <= s.len(),
        forall|k: int| 0 <= k < i ==> is_ws(s[k]),
        i < s.len() ==> !is_ws(s[i]),
    ensures
        trim_start(s) == s.skip(i),
    decreases i,
{
    if i == 0 {
        assert(s.skip(0) =~= s);
    } else {
        let t = s.drop_first();
        assert forall|k: int| 0 <= k < i - 1 implies is_ws(t[k]) by {
            assert(t[k] == s[k + 1]);
        }
        if i - 1 < t.len() {
            assert(t[i - 1] == s[i]);
        }
        lemma_trim_start_at(t, i - 1);
        assert(t.skip(i - 1) =~= s.skip(i));
    }
}

proof fn lemma_trim_end_at(s: Seq<char>, j: int)
    requires
        0 <= j <= s.len(),
        forall|k: int| j <= k < s.len() ==> is_ws(s[k]),
        j > 0 ==> !is_ws(s[j - 1]),
    ensures
        trim_end(s) == s.take(j),
    decreases s.len() - j,
{
    if j == s.len() {
        assert(s.take(j) =~= s);
    } else {
        let t = s.drop_last();
        assert forall|k: int| j <= k < t.len() implies is_ws(t[k]) by {
            assert(t[k] == s[k]);
        }
        if j > 0 {
            assert(t[j - 1] == s[j - 1]);
        }
        lemma_trim_end_at(t, j);
        assert(t.take(j) =~= s.take(j));
    }
}

/// `s` with leading and trailing white space removed (as `str::trim`).
pub fn trim_str(s: &str) -> (r: &str)
    ensures
        r@ == trim(s@),
{
    let n = s.unicode_len();
    let mut i: usize = 0;
    while i < n && is_whitespace(s.get_char(i))
        invariant
            n == s@.len(),
            i <= n,
            forall|k: int| 0 <= k < i ==> is_ws(s@[k]),
        decreases n - i,
    {
        i = i + 1;
    }
    let mut j: usize = n;
    while j > i && is_whitespace(s.get_char(j - 1))
        invariant
            n == s@.len(),
            i <= j <= n,
            forall|k: int| j <= k < n ==> is_ws(s@[k]),
        decreases j - i,
    {
        j = j - 1;
    }
    proof {
        lemma_trim_start_at(s@, i as int);
        let t = s@.skip(i as int);
        if j > i {
            assert(t[j - i - 1] == s@[j - 1]);
        }
        assert forall|k: int| j - i <= k < t.len() implies is_ws(t[k]) by {
            assert(t[k] == s@[k + i]);
        }
        lemma_trim_end_at(t, j - i);
        assert(t.take(j - i) =~= s@.subrange(i as int, j as int));
    }
    s.substring_char(i, j)
}

} // verus!

verus! {

/// `i` is the first position at or after `from` where `pat` occurs in `s`.
pub open spec fn is_first_occurrence(s: Seq<char>, pat: Seq<char>, from: int, i: int) -> bool {
    from <= i && occurs_at(s, pat, i) && forall|j: int| from <= j < i ==> !occurs_at(s, pat, j)
}

/// The first position at or after `from` where `pat` occurs in `s`, if any.
pub open spec fn first_occurrence(s: Seq<char>, pat: Seq<char>, from: int) -> Option<int> {
    if exists|i: int| is_first_occurrence(s, pat, from, i) {
        Some(choose|i: int| is_first_occurrence(s, pat, from, i))
    } else {
        None
    }
}

/// A first occurrence is the first occurrence.
pub proof fn lemma_first_occurrence_is(s: Seq<char>, pat: Seq<char>, from: int, i: int)
    requires
        is_first_occurrence(s, pat, from, i),
    ensures
        first_occurrence(s, pat, from) == Some(i),
{
    let k = choose|k: int| is_first_occurrence(s, pat, from, k);
    assert(is_first_occurrence(s, pat, from, k));
    if k < i {
        assert(!occurs_at(s, pat, k));
    } else if i < k {
        assert(!occurs_at(s, pat, i));
    }
}

/// Without an occurrence there is no first occurrence.
pub proof fn lemma_first_occurrence_none(s: Seq<char>, pat: Seq<char>, from: int)
    requires
        forall|j: int| from <= j ==> !occurs_at(s, pat, j),
    ensures
        first_occurrence(s, pat, from) is None,
{
}

/// The first position at or after `from` where `pat` occurs in `s`, if any.
pub fn find_first(s: &str, pat: &str, from: usize) -> (r: Option<usize>)
    requires
        from <= s@.len(),
    ensures
        match r {
            Some(i) => first_occurrence(s@, pat@, from as int) == Some(i as int),
            None => first_occurrence(s@, pat@, from as int) is None,
        },
{
    let r = find_str_from(s, pat, from);
    proof {
        match r {
            Some(i) => lemma_first_occurrence_is(s@, pat@, from as int, i as int),
            None => lemma_first_occurrence_none(s@, pat@, from as int),
        }
    }
    r
}

/// Whether `s` begins with `pat`.
pub open spec fn starts_with(s: Seq<char>, pat: Seq<char>) -> bool {
    pat.len() <= s.len() && s.take(pat.len() as int) == pat
}

/// Whether `s` begins with `pat` (as `str::starts_with`).
pub fn str_starts_with(s: &str, pat: &str) -> (r: bool)
    ensures
        r == starts_with(s@, pat@),
{
    let r = matches_at(s, pat, 0);
    proof {
        if pat@.len() <= s@.len() {
            assert(s@.subrange(0, pat@.len() as int) =~= s@.take(pat@.len() as int));
        }
    }
    r
}

/// Whether `pat` occurs anywhere in `s`.
pub open spec fn contains_str(s: Seq<char>, pat: Seq<char>) -> bool {
    exists|i: int| occurs_at(s, pat, i)
}

/// Whether `pat` occurs anywhere in `s` (as `str::contains`).
pub fn str_contains(s: &str, pat: &str) -> (r: bool)
    ensures
        r == contains_str(s@, pat@),
{
    let r = find_str_from(s, pat, 0);
    match r {
        Some(i) => {
            assert(occurs_at(s@, pat@, i as int));
            true
        },
        None => {
            assert forall|i: int| !occurs_at(s@, pat@, i) by {
                if i >= 0 {
                    assert(0 <= i);
                }
            }
            false
        },
    }
}

/// Whether `c` occurs in `s`.
pub fn contains_char(s: &str, c: char) -> (r: bool)
    ensures
        r == s@.contains(c),
{
    let i = find_char_from(s, c, 0);
    proof {
        lemma_first_or_len(s@.skip(0), c);
        assert(s@.skip(0) =~= s@);
        if i < s@.len() {
            assert(s@[i as int] == c);
        }
    }
    i < s.unicode_len()
}

} // verus!

verus! {

/// Whether two strings hold the same characters.
pub fn str_eq(a: &str, b: &str) -> (r: bool)
    ensures
        r == (a@ == b@),
{
    let n = a.unicode_len();
    if n != b.unicode_len() {
        return false;
    }
    let mut i: usize = 0;
    while i < n
        invariant
            n == a@.len(),
            n == b@.len(),
            i <= n,
            forall|j: int| 0 <= j < i ==> a@[j] == b@[j],
        decreases n - i,
    {
        if a.get_char(i) != b.get_char(i) {
            return false;
        }
        i = i + 1;
    }
    assert(a@ =~= b@);
    true
}

/// Whether `c` is an ASCII decimal digit.
pub open spec fn is_digit(c: char) -> bool {
    '0' <= c && c <= '9'
}

/// The number an ASCII decimal digit stands for.
pub open spec fn digit_value(c: char) -> nat {
    ((c as u32) - ('0' as u32)) as nat
}

/// The number a string of decimal digits stands for.
pub open spec fn digits_value(s: Seq<char>) -> nat
    decreases s.len(),
{
    if s.len() == 0 {
        0
    } else {
        digits_value(s.drop_last()) * 10 + digit_value(s.last())
    }
}

/// The digits of an unsigned number, after an optional `+`.
pub open spec fn unsigned_digits(s: Seq<char>) -> Seq<char> {
    if s.len() > 0 && s[0] == '+' {
        s.drop_first()
    } else {
        s
    }
}

/// What parsing `s` as a `usize` gives: the value of its digits, when after
/// an optional `+` it is a nonempty run of decimal digits whose value fits.
pub open spec fn parsed_usize(s: Seq<char>) -> Option<usize> {
    let d = unsigned_digits(s);
    if d.len() > 0 && (forall|i: int| 0 <= i < d.len() ==> is_digit(#[trigger] d[i]))
        && digits_value(d) <= usize::MAX {
        Some(digits_value(d) as usize)
    } else {
        None
    }
}

proof fn lemma_digits_value_grows(d: Seq<char>, i: int)
    requires
        0 <= i <= d.len(),
    ensures
        digits_value(d.take(i)) <= digits_value(d),
    decreases d.len() - i,
{
    if i < d.len() {
        lemma_digits_value_grows(d, i + 1);
        assert(d.take(i + 1).drop_last() =~= d.take(i));
    } else {
        assert(d.take(i) =~= d);
    }
}

/// Parses a decimal `usize` as `str::parse` does.
pub fn parse_usize(s: &str) -> (r: Option<usize>)
    ensures
        r == parsed_usize(s@),
{
    let n = s.unicode_len();
    let mut i: usize = 0;
    if n > 0 && s.get_char(0) == '+' {
        i = 1;
    }
    let ghost d = unsigned_digits(s@);
    assert(d =~= s@.skip(i as int));
    if i == n {
        return None;
    }
    let start = i;
    let mut value: usize = 0;
    while i < n
        invariant
            n == s@.len(),
            start < n,
            start <= i <= n,
            d == s@.skip(start as int),
            d == unsigned_digits(s@),
            forall|j: int| 0 <= j < i - start ==> is_digit(#[trigger] d[j]),
            value == digits_value(d.take(i - start)),
        decreases n - i,
    {
        let c = s.get_char(i);
        if !('0' <= c && c <= '9') {
            assert(!is_digit(d[i - start]));
            assert(!(forall|j: int| 0 <= j < d.len() ==> is_digit(#[trigger] d[j])));
            assert(parsed_usize(s@) is None);
            return None;
        }
        let dg = ((c as u32) - ('0' as u32)) as usize;
        assert(d.take(i - start + 1).drop_last() =~= d.take(i - start));
        assert(d.take(i - start + 1).last() == c);
        assert(dg == digit_value(c));
        assert(digits_value(d.take(i - start + 1)) == value * 10 + dg);
        let next = match value.checked_mul(10) {
            Some(v) => v.checked_add(dg),
            None => None,
        };
        match next {
            Some(v) => {
                value = v;
            },
            None => {
                assert(value * 10 + dg > usize::MAX);
                proof {
                    if forall|j: int| 0 <= j < d.len() ==> is_digit(#[trigger] d[j]) {
                        lemma_digits_value_grows(d, i - start + 1);
                    }
                }
                assert(parsed_usize(s@) is None);
                return None;
            },
        }
        i = i + 1;
    }
    assert(d.take(i - start) =~= d);
    Some(value)
}

} // verus!
