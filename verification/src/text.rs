//! Character-level utilities shared by the matchers: ASCII lowercasing,
//! decimal rendering and parsing, and conversions between strings and
//! character vectors.

use vstd::prelude::*;

verus! {

/// ASCII lowercasing of a single character; everything outside `'A'..='Z'`
/// is left unchanged.
pub open spec fn lower_char(c: char) -> char {
    match c {
        'A' => 'a',
        'B' => 'b',
        'C' => 'c',
        'D' => 'd',
        'E' => 'e',
        'F' => 'f',
        'G' => 'g',
        'H' => 'h',
        'I' => 'i',
        'J' => 'j',
        'K' => 'k',
        'L' => 'l',
        'M' => 'm',
        'N' => 'n',
        'O' => 'o',
        'P' => 'p',
        'Q' => 'q',
        'R' => 'r',
        'S' => 's',
        'T' => 't',
        'U' => 'u',
        'V' => 'v',
        'W' => 'w',
        'X' => 'x',
        'Y' => 'y',
        'Z' => 'z',
        _ => c,
    }
}

/// ASCII lowercasing of a character sequence.
pub open spec fn lower(s: Seq<char>) -> Seq<char> {
    s.map_values(|c: char| lower_char(c))
}

/// Lowercasing is idempotent on single characters.
pub proof fn lemma_lower_char_idempotent(c: char)
    ensures
        lower_char(lower_char(c)) == lower_char(c),
{
}

/// Lowercasing is idempotent on sequences.
pub proof fn lemma_lower_idempotent(s: Seq<char>)
    ensures
        lower(lower(s)) == lower(s),
{
    assert forall|i: int| 0 <= i < s.len() implies lower(lower(s))[i] == lower(s)[i] by {
        lemma_lower_char_idempotent(s[i]);
    }
    assert(lower(lower(s)) =~= lower(s));
}

pub fn to_lower_char(c: char) -> (r: char)
    ensures
        r == lower_char(c),
{
    match c {
        'A' => 'a',
        'B' => 'b',
        'C' => 'c',
        'D' => 'd',
        'E' => 'e',
        'F' => 'f',
        'G' => 'g',
        'H' => 'h',
        'I' => 'i',
        'J' => 'j',
        'K' => 'k',
        'L' => 'l',
        'M' => 'm',
        'N' => 'n',
        'O' => 'o',
        'P' => 'p',
        'Q' => 'q',
        'R' => 'r',
        'S' => 's',
        'T' => 't',
        'U' => 'u',
        'V' => 'v',
        'W' => 'w',
        'X' => 'x',
        'Y' => 'y',
        'Z' => 'z',
        _ => c,
    }
}

/// The characters of a string slice, in order.
pub fn chars_of(s: &str) -> (r: Vec<char>)
    ensures
        r@ == s@,
{
    let n = s.unicode_len();
    let mut r: Vec<char> = Vec::new();
    let mut i: usize = 0;
    while i < n
        invariant
            n == s@.len(),
            i <= n,
            r@ == s@.take(i as int),
        decreases n - i,
    {
        r.push(s.get_char(i));
        i = i + 1;
        assert(r@ =~= s@.take(i as int));
    }
    assert(s@.take(n as int) =~= s@);
    r
}

/// ASCII lowercasing of a character vector.
pub fn lower_vec(v: &Vec<char>) -> (r: Vec<char>)
    ensures
        r@ == lower(v@),
{
    let mut r: Vec<char> = Vec::new();
    let mut i: usize = 0;
    while i < v.len()
        invariant
            i <= v@.len(),
            r@ == lower(v@.take(i as int)),
        decreases v@.len() - i,
    {
        r.push(to_lower_char(v[i]));
        i = i + 1;
        assert(r@ =~= lower(v@.take(i as int)));
    }
    assert(v@.take(v@.len() as int) =~= v@);
    r
}

/// Element-wise equality of two character vectors.
pub fn eq_chars(a: &Vec<char>, b: &Vec<char>) -> (r: bool)
    ensures
        r == (a@ == b@),
{
    if a.len() != b.len() {
        assert(a@ != b@);
        return false;
    }
    let mut i: usize = 0;
    while i < a.len()
        invariant
            a@.len() == b@.len(),
            i <= a@.len(),
            forall|j: int| 0 <= j < i ==> a@[j] == b@[j],
        decreases a@.len() - i,
    {
        if a[i] != b[i] {
            return false;
        }
        i = i + 1;
    }
    assert(a@ =~= b@);
    true
}

/// Equality of a character vector against a string slice.
pub fn chars_eq_str(a: &Vec<char>, s: &str) -> (r: bool)
    ensures
        r == (a@ == s@),
{
    let b = chars_of(s);
    eq_chars(a, &b)
}

/// Whether `p` is a prefix of `v`, element by element.
pub fn chars_start_with(v: &Vec<char>, p: &Vec<char>) -> (r: bool)
    ensures
        r == p@.is_prefix_of(v@),
{
    if p.len() > v.len() {
        assert(!p@.is_prefix_of(v@));
        return false;
    }
    let mut i: usize = 0;
    while i < p.len()
        invariant
            p@.len() <= v@.len(),
            i <= p@.len(),
            forall|j: int| 0 <= j < i ==> p@[j] == v@[j],
        decreases p@.len() - i,
    {
        if p[i] != v[i] {
            assert(!p@.is_prefix_of(v@));
            return false;
        }
        i = i + 1;
    }
    assert(p@ =~= v@.take(p@.len() as int));
    true
}

/// Whether the string slice `p` is a prefix of the characters `v`.
pub fn chars_start_with_str(v: &Vec<char>, p: &str) -> (r: bool)
    ensures
        r == p@.is_prefix_of(v@),
{
    let pc = chars_of(p);
    chars_start_with(v, &pc)
}

/// The least index of `c` in `s`, or `None`.
pub open spec fn find_char(s: Seq<char>, c: char) -> Option<int>
    decreases s.len(),
{
    if s.len() == 0 {
        None
    } else if s[0] == c {
        Some(0)
    } else {
        match find_char(s.drop_first(), c) {
            Some(i) => Some(i + 1),
            None => None,
        }
    }
}

/// A least index, where there is one, lies within the sequence.
pub proof fn lemma_find_char_in_bounds(s: Seq<char>, c: char)
    ensures
        find_char(s, c) matches Some(i) ==> 0 <= i < s.len(),
    decreases s.len(),
{
    if s.len() > 0 && s[0] != c {
        lemma_find_char_in_bounds(s.drop_first(), c);
    }
}

/// The greatest index of `c` in `s`, or `None`.
pub open spec fn rfind_char(s: Seq<char>, c: char) -> Option<int>
    decreases s.len(),
{
    if s.len() == 0 {
        None
    } else if s.last() == c {
        Some(s.len() - 1)
    } else {
        rfind_char(s.drop_last(), c)
    }
}

/// A greatest index, where there is one, lies within the sequence.
pub proof fn lemma_rfind_char_in_bounds(s: Seq<char>, c: char)
    ensures
        rfind_char(s, c) matches Some(i) ==> 0 <= i < s.len(),
    decreases s.len(),
{
    if s.len() > 0 && s.last() != c {
        lemma_rfind_char_in_bounds(s.drop_last(), c);
    }
}

/// How many times `c` occurs in `s`.
pub open spec fn count_char(s: Seq<char>, c: char) -> nat
    decreases s.len(),
{
    if s.len() == 0 {
        0
    } else {
        count_char(s.drop_last(), c) + if s.last() == c {
            1nat
        } else {
            0nat
        }
    }
}

/// `s` without its trailing run of `c`.
pub open spec fn trim_end_char(s: Seq<char>, c: char) -> Seq<char>
    decreases s.len(),
{
    if s.len() > 0 && s.last() == c {
        trim_end_char(s.drop_last(), c)
    } else {
        s
    }
}

/// `s` with every occurrence of `pat` removed, scanning left to right over
/// non-overlapping occurrences.
pub open spec fn remove_all(s: Seq<char>, pat: Seq<char>) -> Seq<char>
    decreases s.len(),
    when pat.len() > 0
{
    if s.len() < pat.len() {
        s
    } else if s.take(pat.len() as int) == pat {
        remove_all(s.skip(pat.len() as int), pat)
    } else {
        seq![s[0]] + remove_all(s.drop_first(), pat)
    }
}

/// The least index of `c` among the characters.
pub fn find_char_vec(v: &Vec<char>, c: char) -> (r: Option<usize>)
    ensures
        match r {
            Some(i) => find_char(v@, c) == Some(i as int),
            None => find_char(v@, c) is None,
        },
{
    let mut i: usize = 0;
    while i < v.len()
        invariant
            i <= v@.len(),
            forall|j: int| 0 <= j < i ==> v@[j] != c,
        decreases v@.len() - i,
    {
        if v[i] == c {
            proof {
                lemma_find_char_at(v@, c, i as int);
            }
            return Some(i);
        }
        i = i + 1;
    }
    proof {
        lemma_find_char_none(v@, c);
    }
    None
}

/// The greatest index of `c` among the characters.
pub fn rfind_char_vec(v: &Vec<char>, c: char) -> (r: Option<usize>)
    ensures
        match r {
            Some(i) => rfind_char(v@, c) == Some(i as int),
            None => rfind_char(v@, c) is None,
        },
{
    let mut i: usize = v.len();
    while i > 0
        invariant
            i <= v@.len(),
            forall|j: int| i <= j < v@.len() ==> v@[j] != c,
        decreases i,
    {
        i = i - 1;
        if v[i] == c {
            proof {
                lemma_rfind_char_at(v@, c, i as int);
            }
            return Some(i);
        }
    }
    proof {
        lemma_rfind_char_none(v@, c);
    }
    None
}

/// Where position `i` holds `c` and nothing before it does, the least
/// index of `c` is `i`.
proof fn lemma_find_char_at(s: Seq<char>, c: char, i: int)
    requires
        0 <= i < s.len(),
        s[i] == c,
        forall|j: int| 0 <= j < i ==> s[j] != c,
    ensures
        find_char(s, c) == Some(i),
    decreases s.len(),
{
    if i > 0 {
        lemma_find_char_at(s.drop_first(), c, i - 1);
    }
}

/// Where no position holds `c`, there is no least index.
proof fn lemma_find_char_none(s: Seq<char>, c: char)
    requires
        forall|j: int| 0 <= j < s.len() ==> s[j] != c,
    ensures
        find_char(s, c) is None,
    decreases s.len(),
{
    if s.len() > 0 {
        lemma_find_char_none(s.drop_first(), c);
    }
}

/// Where position `i` holds `c` and nothing after it does, the greatest
/// index of `c` is `i`.
proof fn lemma_rfind_char_at(s: Seq<char>, c: char, i: int)
    requires
        0 <= i < s.len(),
        s[i] == c,
        forall|j: int| i < j < s.len() ==> s[j] != c,
    ensures
        rfind_char(s, c) == Some(i),
    decreases s.len(),
{
    if i < s.len() - 1 {
        lemma_rfind_char_at(s.drop_last(), c, i);
    }
}

/// Where no position holds `c`, there is no greatest index.
proof fn lemma_rfind_char_none(s: Seq<char>, c: char)
    requires
        forall|j: int| 0 <= j < s.len() ==> s[j] != c,
    ensures
        rfind_char(s, c) is None,
    decreases s.len(),
{
    if s.len() > 0 {
        lemma_rfind_char_none(s.drop_last(), c);
    }
}

/// How many times `c` occurs among the characters.
pub fn count_char_vec(v: &Vec<char>, c: char) -> (r: usize)
    ensures
        r == count_char(v@, c),
{
    let mut n: usize = 0;
    let mut i: usize = 0;
    proof {
        assert(v@.take(0) =~= Seq::<char>::empty());
    }
    while i < v.len()
        invariant
            i <= v@.len(),
            n == count_char(v@.take(i as int), c),
            n <= i,
        decreases v@.len() - i,
    {
        proof {
            assert(v@.take(i + 1).drop_last() =~= v@.take(i as int));
            assert(v@.take(i + 1).last() == v@[i as int]);
        }
        if v[i] == c {
            n = n + 1;
        }
        i = i + 1;
    }
    proof {
        assert(v@.take(i as int) =~= v@);
    }
    n
}

/// The characters without their trailing run of `c`.
pub fn trim_end_char_vec(v: &Vec<char>, c: char) -> (r: Vec<char>)
    ensures
        r@ == trim_end_char(v@, c),
{
    let mut end: usize = v.len();
    proof {
        assert(v@.take(v@.len() as int) =~= v@);
    }
    while end > 0 && v[end - 1] == c
        invariant
            end <= v@.len(),
            trim_end_char(v@, c) == trim_end_char(v@.take(end as int), c),
        decreases end,
    {
        proof {
            assert(v@.take(end as int).last() == v@[end - 1]);
            assert(v@.take(end as int).drop_last() =~= v@.take(end - 1));
        }
        end = end - 1;
    }
    let mut r: Vec<char> = Vec::new();
    let mut i: usize = 0;
    proof {
        if end > 0 {
            assert(v@.take(end as int).last() == v@[end - 1]);
        }
        assert(trim_end_char(v@.take(end as int), c) == v@.take(end as int));
    }
    while i < end
        invariant
            i <= end <= v@.len(),
            r@ == v@.take(i as int),
        decreases end - i,
    {
        r.push(v[i]);
        i = i + 1;
        proof {
            assert(r@ =~= v@.take(i as int));
        }
    }
    r
}

/// The characters with every occurrence of `pat` removed, scanning left to
/// right.
pub fn remove_all_vec(v: &Vec<char>, pat: &Vec<char>) -> (r: Vec<char>)
    requires
        pat@.len() > 0,
    ensures
        r@ == remove_all(v@, pat@),
{
    proof {
        assert(v@.skip(0) =~= v@);
    }
    remove_all_at(v, pat, 0)
}

/// Whether the characters of `v` starting at `i` spell out `pat`.
fn segment_matches(v: &Vec<char>, i: usize, pat: &Vec<char>) -> (r: bool)
    requires
        i + pat@.len() <= v@.len(),
    ensures
        r == (v@.subrange(i as int, i + pat@.len()) == pat@),
{
    let vn = v.len();
    let mut k: usize = 0;
    while k < pat.len()
        invariant
            vn == v@.len(),
            i + pat@.len() <= v@.len(),
            k <= pat@.len(),
            forall|j: int| 0 <= j < k ==> v@[i + j] == pat@[j],
        decreases pat@.len() - k,
    {
        if v[i + k] != pat[k] {
            proof {
                assert(v@.subrange(i as int, i + pat@.len())[k as int] == v@[i + k]);
            }
            return false;
        }
        k = k + 1;
    }
    proof {
        assert(v@.subrange(i as int, i + pat@.len()) =~= pat@);
    }
    true
}

/// `remove_all` over the suffix of `v` that starts at `i`.
fn remove_all_at(v: &Vec<char>, pat: &Vec<char>, i: usize) -> (r: Vec<char>)
    requires
        pat@.len() > 0,
        i <= v@.len(),
    ensures
        r@ == remove_all(v@.skip(i as int), pat@),
    decreases v@.len() - i,
{
    let ghost rest = v@.skip(i as int);
    if v.len() - i < pat.len() {
        // Too short for another occurrence: the suffix stays as it is.
        let mut r: Vec<char> = Vec::new();
        let mut j: usize = i;
        proof {
            assert(r@ =~= v@.subrange(i as int, i as int));
        }
        while j < v.len()
            invariant
                i <= j <= v@.len(),
                r@ == v@.subrange(i as int, j as int),
            decreases v@.len() - j,
        {
            r.push(v[j]);
            j = j + 1;
            proof {
                assert(r@ =~= v@.subrange(i as int, j as int));
            }
        }
        proof {
            assert(v@.subrange(i as int, v@.len() as int) =~= rest);
        }
        return r;
    }
    let matches_here = segment_matches(v, i, pat);
    proof {
        assert(rest.take(pat@.len() as int) =~= v@.subrange(i as int, i + pat@.len()));
    }
    if matches_here {
        let r = remove_all_at(v, pat, i + pat.len());
        proof {
            assert(rest.skip(pat@.len() as int) =~= v@.skip(i + pat@.len()));
        }
        r
    } else {
        let mut r = remove_all_at(v, pat, i + 1);
        r.insert(0, v[i]);
        proof {
            assert(rest.drop_first() =~= v@.skip(i + 1));
            assert(r@ =~= seq![rest[0]] + remove_all(rest.drop_first(), pat@));
        }
        r
    }
}

/// Relies on `String::from_iter` over `char`: collecting characters yields
/// the string of exactly those characters, in order.
#[verifier::external_body]
pub(crate) fn chars_to_string(v: &Vec<char>) -> (s: String)
    ensures
        s@ == v@,
{
    v.iter().collect()
}

/// Whether `c` is a decimal digit.
pub open spec fn is_dec_digit(c: char) -> bool {
    c == '0' || c == '1' || c == '2' || c == '3' || c == '4' || c == '5' || c == '6' || c == '7'
        || c == '8' || c == '9'
}

/// The numeric value of a decimal digit; other characters read as zero.
pub open spec fn digit_val(c: char) -> nat {
    if c == '1' {
        1
    } else if c == '2' {
        2
    } else if c == '3' {
        3
    } else if c == '4' {
        4
    } else if c == '5' {
        5
    } else if c == '6' {
        6
    } else if c == '7' {
        7
    } else if c == '8' {
        8
    } else if c == '9' {
        9
    } else {
        0
    }
}

/// The numeric value of a decimal digit character, or `None` for any other
/// character.
pub fn dec_digit_of(c: char) -> (r: Option<u64>)
    ensures
        r is Some <==> is_dec_digit(c),
        r is Some ==> r->0 == digit_val(c),
{
    match c {
        '0' => Some(0),
        '1' => Some(1),
        '2' => Some(2),
        '3' => Some(3),
        '4' => Some(4),
        '5' => Some(5),
        '6' => Some(6),
        '7' => Some(7),
        '8' => Some(8),
        '9' => Some(9),
        _ => None,
    }
}

/// The digit character for a value below ten.
pub open spec fn digit_char(n: nat) -> char
    recommends
        n < 10,
{
    if n == 0 {
        '0'
    } else if n == 1 {
        '1'
    } else if n == 2 {
        '2'
    } else if n == 3 {
        '3'
    } else if n == 4 {
        '4'
    } else if n == 5 {
        '5'
    } else if n == 6 {
        '6'
    } else if n == 7 {
        '7'
    } else if n == 8 {
        '8'
    } else {
        '9'
    }
}

/// The canonical decimal rendering of a natural number, without leading
/// zeros (`0` renders as `"0"`).
pub open spec fn dec_chars(n: nat) -> Seq<char>
    decreases n,
{
    if n < 10 {
        seq![digit_char(n)]
    } else {
        dec_chars(n / 10).push(digit_char(n % 10))
    }
}

/// The value denoted by a sequence of decimal digits (most significant
/// first); leading zeros are permitted.
pub open spec fn dec_val(s: Seq<char>) -> nat
    decreases s.len(),
{
    if s.len() == 0 {
        0
    } else {
        10 * dec_val(s.drop_last()) + digit_val(s.last())
    }
}

/// Whether every character of `s` is a decimal digit.
pub open spec fn all_dec_digits(s: Seq<char>) -> bool {
    forall|i: int| 0 <= i < s.len() ==> is_dec_digit(#[trigger] s[i])
}

/// The digits of a numeral once an optional leading `+` sign is removed.
pub open spec fn uint_body(s: Seq<char>) -> Seq<char> {
    if s.len() > 0 && s[0] == '+' {
        s.drop_first()
    } else {
        s
    }
}

/// The numeric reading of a string in the style of `str::parse` for
/// unsigned integers: an optional leading `+`, then one or more decimal
/// digits. `None` when the shape is wrong; the caller bounds the value.
pub open spec fn parse_uint_spec(s: Seq<char>) -> Option<nat> {
    if uint_body(s).len() > 0 && all_dec_digits(uint_body(s)) {
        Some(dec_val(uint_body(s)))
    } else {
        None
    }
}

/// What `str::parse::<u64>` returns: the numeric reading when it exists
/// and fits in a `u64`.
pub open spec fn parse_u64_spec(s: Seq<char>) -> Option<u64> {
    match parse_uint_spec(s) {
        Some(v) => if v <= u64::MAX {
            Some(v as u64)
        } else {
            None
        },
        None => None,
    }
}

/// What `str::parse::<u16>` returns: the numeric reading when it exists
/// and fits in a `u16`.
pub open spec fn parse_u16_spec(s: Seq<char>) -> Option<u16> {
    match parse_uint_spec(s) {
        Some(v) => if v <= u16::MAX {
            Some(v as u16)
        } else {
            None
        },
        None => None,
    }
}

/// A digit appended on the right multiplies the value by ten and adds the
/// digit, so prefixes never exceed the whole string's value.
proof fn lemma_dec_val_prefix(s: Seq<char>, k: int)
    requires
        0 <= k <= s.len(),
    ensures
        dec_val(s.take(k)) <= dec_val(s),
    decreases s.len(),
{
    if k < s.len() {
        assert(s.drop_last().take(k) =~= s.take(k));
        lemma_dec_val_prefix(s.drop_last(), k);
    } else {
        assert(s.take(k) =~= s);
    }
}

/// Decimal parsing of a character vector, as `str::parse::<u64>` reads it.
pub fn parse_u64_chars(v: &Vec<char>) -> (r: Option<u64>)
    ensures
        r == parse_u64_spec(v@),
{
    let start: usize = if v.len() > 0 && v[0] == '+' {
        1
    } else {
        0
    };
    let ghost body = uint_body(v@);
    assert(body =~= v@.subrange(start as int, v@.len() as int));
    if start >= v.len() {
        return None;
    }
    let max_div_10: u64 = u64::MAX / 10;
    let mut acc: u64 = 0;
    let mut j: usize = start;
    while j < v.len()
        invariant
            start <= j <= v@.len(),
            body == uint_body(v@),
            body == v@.subrange(start as int, v@.len() as int),
            all_dec_digits(v@.subrange(start as int, j as int)),
            acc == dec_val(v@.subrange(start as int, j as int)),
            max_div_10 == u64::MAX / 10,
        decreases v@.len() - j,
    {
        let c = v[j];
        let d: u64 = match dec_digit_of(c) {
            Some(d) => d,
            None => {
                proof {
                    assert(body[j - start] == c);
                    assert(!is_dec_digit(body[j - start]));
                }
                return None;
            },
        };
        proof {
            assert(v@.subrange(start as int, j + 1).drop_last() =~= v@.subrange(
                start as int,
                j as int,
            ));
            assert(dec_val(v@.subrange(start as int, j + 1)) == 10 * acc + d);
        }
        if acc > max_div_10 || (acc == max_div_10 && d > 5) {
            proof {
                assert(10 * acc + d > u64::MAX);
                lemma_dec_val_prefix(body, j + 1 - start);
                assert(body.take(j + 1 - start) =~= v@.subrange(start as int, j + 1));
            }
            return None;
        }
        acc = acc * 10 + d;
        j = j + 1;
    }
    proof {
        assert(v@.subrange(start as int, j as int) =~= body);
    }
    Some(acc)
}

/// Decimal parsing of a character vector, as `str::parse::<u16>` reads it.
pub fn parse_u16_chars(v: &Vec<char>) -> (r: Option<u16>)
    ensures
        r == parse_u16_spec(v@),
{
    match parse_u64_chars(v) {
        Some(x) => {
            if x <= 65535 {
                Some(x as u16)
            } else {
                None
            }
        },
        None => None,
    }
}

/// Decimal rendering of a `u16`, most significant digit first.
pub fn u16_to_chars(n: u16) -> (r: Vec<char>)
    ensures
        r@ == dec_chars(n as nat),
{
    let mut digits: Vec<char> = Vec::new();
    let mut m: u16 = n;
    // Collect digits least significant first, then reverse.
    loop
        invariant_except_break
            dec_chars(n as nat) == dec_chars(m as nat) + digits@.reverse(),
        ensures
            dec_chars(n as nat) == digits@.reverse(),
        decreases m,
    {
        let ghost previous = digits@;
        let d: u16 = m % 10;
        let rest: u16 = m / 10;
        let c = if d == 0 {
            '0'
        } else if d == 1 {
            '1'
        } else if d == 2 {
            '2'
        } else if d == 3 {
            '3'
        } else if d == 4 {
            '4'
        } else if d == 5 {
            '5'
        } else if d == 6 {
            '6'
        } else if d == 7 {
            '7'
        } else if d == 8 {
            '8'
        } else {
            '9'
        };
        assert(c == digit_char((m % 10) as nat));
        digits.push(c);
        proof {
            assert(digits@.reverse() =~= seq![c] + previous.reverse());
        }
        if rest == 0 {
            proof {
                assert(dec_chars(m as nat) =~= seq![digit_char((m % 10) as nat)]);
                assert(dec_chars(n as nat) =~= digits@.reverse());
            }
            break;
        }
        proof {
            assert(dec_chars(m as nat) == dec_chars(rest as nat).push(digit_char((m % 10) as nat)));
            assert(dec_chars(rest as nat).push(c) + previous.reverse() =~= dec_chars(rest as nat)
                + digits@.reverse());
        }
        m = rest;
    }
    let mut r: Vec<char> = Vec::new();
    let mut i: usize = digits.len();
    while i > 0
        invariant
            i <= digits@.len(),
            r@ == digits@.subrange(i as int, digits@.len() as int).reverse(),
        decreases i,
    {
        i = i - 1;
        r.push(digits[i]);
        assert(r@ =~= digits@.subrange(i as int, digits@.len() as int).reverse());
    }
    assert(digits@.subrange(0, digits@.len() as int) =~= digits@);
    r
}

} // verus!
