//! Character-level string helpers: substring search, trimming and
//! decimal / hexadecimal number reading, each proved against a direct
//! mathematical description of its result.

use vstd::prelude::*;

verus! {

/// The whitespace characters that trimming removes.
pub open spec fn sp_is_space(c: char) -> bool {
    c == ' ' || c == '\t' || c == '\n' || c == '\r'
}

/// `pat` occurs in `s` starting at position `i`.
pub open spec fn sp_matches_at(s: Seq<char>, pat: Seq<char>, i: int) -> bool {
    0 <= i && i + pat.len() <= s.len() && s.subrange(i, i + pat.len()) == pat
}

/// `pat` occurs somewhere in `s`.
pub open spec fn sp_contains(s: Seq<char>, pat: Seq<char>) -> bool {
    exists|i: int| sp_matches_at(s, pat, i)
}

/// Position of the first occurrence of `pat` in `s` at or after `from`.
pub open spec fn sp_find(s: Seq<char>, pat: Seq<char>, from: int) -> Option<int>
    decreases s.len() - from,
{
    if from < 0 || from + pat.len() > s.len() {
        None
    } else if pat.len() == 0 {
        Some(from)
    } else if sp_matches_at(s, pat, from) {
        Some(from)
    } else {
        sp_find(s, pat, from + 1)
    }
}

/// Number of leading whitespace characters of `s`.
pub open spec fn sp_trim_start(s: Seq<char>) -> int
    decreases s.len(),
{
    if s.len() == 0 || !sp_is_space(s[0]) {
        0
    } else {
        1 + sp_trim_start(s.drop_first())
    }
}

/// Length of `s` once trailing whitespace is dropped.
pub open spec fn sp_trim_end(s: Seq<char>) -> int
    decreases s.len(),
{
    if s.len() == 0 || !sp_is_space(s.last()) {
        s.len() as int
    } else {
        sp_trim_end(s.drop_last())
    }
}

/// `s` with leading and trailing whitespace removed.
pub open spec fn sp_trim(s: Seq<char>) -> Seq<char> {
    if sp_trim_start(s) >= sp_trim_end(s) {
        Seq::empty()
    } else {
        s.subrange(sp_trim_start(s), sp_trim_end(s))
    }
}

proof fn lemma_trim_start_bounds(s: Seq<char>)
    ensures
        0 <= sp_trim_start(s) <= s.len(),
        forall|k: int| 0 <= k < sp_trim_start(s) ==> sp_is_space(s[k]),
        sp_trim_start(s) < s.len() ==> !sp_is_space(s[sp_trim_start(s)]),
    decreases s.len(),
{
    if s.len() == 0 || !sp_is_space(s[0]) {
    } else {
        lemma_trim_start_bounds(s.drop_first());
        assert forall|k: int| 0 <= k < sp_trim_start(s) implies sp_is_space(s[k]) by {
            if k > 0 {
                assert(s.drop_first()[k - 1] == s[k]);
            }
        }
    }
}

proof fn lemma_trim_end_bounds(s: Seq<char>)
    ensures
        0 <= sp_trim_end(s) <= s.len(),
        forall|k: int| sp_trim_end(s) <= k < s.len() ==> sp_is_space(s[k]),
        sp_trim_end(s) > 0 ==> !sp_is_space(s[sp_trim_end(s) - 1]),
    decreases s.len(),
{
    if s.len() == 0 || !sp_is_space(s.last()) {
    } else {
        lemma_trim_end_bounds(s.drop_last());
        assert forall|k: int| sp_trim_end(s) <= k < s.len() implies sp_is_space(s[k]) by {
            if k < s.len() - 1 {
                assert(s.drop_last()[k] == s[k]);
            } else {
                assert(s[k] == s.last());
            }
        }
    }
}

/// Whether `pat` stands in `s` at position `from`.
pub fn matches_at(s: &str, pat: &str, from: usize) -> (r: bool)
    ensures
        r == sp_matches_at(s@, pat@, from as int),
{
    let n = s.unicode_len();
    let m = pat.unicode_len();
    if from > n || m > n - from {
        return false;
    }
    let mut j: usize = 0;
    while j < m
        invariant
            j <= m,
            m == pat@.len(),
            n == s@.len(),
            from + m <= n,
            forall|k: int| 0 <= k < j ==> s@[from + k] == pat@[k],
        decreases m - j,
    {
        if s.get_char(from + j) != pat.get_char(j) {
            assert(s@.subrange(from as int, from + m) != pat@) by {
                assert(s@.subrange(from as int, from + m)[j as int] == s@[from + j]);
            }
            return false;
        }
        j += 1;
    }
    assert(s@.subrange(from as int, from + m) =~= pat@);
    true
}

/// First occurrence of `pat` in `s` at or after `from`.
pub fn find_from(s: &str, pat: &str, from: usize) -> (r: Option<usize>)
    ensures
        match r {
            Some(i) => from <= i && sp_find(s@, pat@, from as int) == Some(i as int),
            None => sp_find(s@, pat@, from as int) is None,
        },
    decreases s@.len() - from,
{
    let n = s.unicode_len();
    let m = pat.unicode_len();
    if from > n || m > n - from {
        return None;
    }
    if matches_at(s, pat, from) {
        return Some(from);
    }
    proof {
        if pat@.len() == 0 {
            assert(s@.subrange(from as int, from as int) =~= pat@);
        }
    }
    find_from(s, pat, from + 1)
}

/// Whether `pat` occurs anywhere in `s`.
pub fn contains_sub(s: &str, pat: &str) -> (r: bool)
    ensures
        r == sp_contains(s@, pat@),
{
    proof {
        lemma_find_complete(s@, pat@, 0);
    }
    match find_from(s, pat, 0) {
        Some(_) => true,
        None => false,
    }
}

/// A successful search is a witness; a failed one rules every position out.
proof fn lemma_find_complete(s: Seq<char>, pat: Seq<char>, from: int)
    requires
        from >= 0,
    ensures
        match sp_find(s, pat, from) {
            Some(i) => sp_matches_at(s, pat, i),
            None => forall|k: int| from <= k ==> !sp_matches_at(s, pat, k),
        },
    decreases s.len() - from,
{
    if from + pat.len() > s.len() {
    } else if pat.len() == 0 {
        assert(s.subrange(from, from) =~= pat);
    } else if sp_matches_at(s, pat, from) {
    } else {
        lemma_find_complete(s, pat, from + 1);
    }
}

/// Position of the first occurrence of the character `c` in `s` at or
/// after `from`.
pub open spec fn sp_find_char(s: Seq<char>, c: char, from: int) -> Option<int>
    decreases s.len() - from,
{
    if from < 0 || from >= s.len() {
        None
    } else if s[from] == c {
        Some(from)
    } else {
        sp_find_char(s, c, from + 1)
    }
}

/// What a character search settles: a hit is a first occurrence, a
/// miss rules every position out.
pub proof fn lemma_find_char_props(s: Seq<char>, c: char, from: int)
    requires
        from >= 0,
    ensures
        match sp_find_char(s, c, from) {
            Some(i) => from <= i < s.len() && s[i] == c && forall|k: int|
                from <= k < i ==> s[k] != c,
            None => forall|k: int| from <= k < s.len() ==> s[k] != c,
        },
    decreases s.len() - from,
{
    if from >= s.len() {
    } else if s[from] == c {
    } else {
        lemma_find_char_props(s, c, from + 1);
    }
}

/// First occurrence of the character `c` in `s` at or after `from`.
pub fn find_char(s: &str, c: char, from: usize) -> (r: Option<usize>)
    ensures
        match r {
            Some(i) => sp_find_char(s@, c, from as int) == Some(i as int),
            None => sp_find_char(s@, c, from as int) is None,
        },
    decreases s@.len() - from,
{
    if from >= s.unicode_len() {
        return None;
    }
    if s.get_char(from) == c {
        return Some(from);
    }
    find_char(s, c, from + 1)
}

/// Position of the last occurrence of the character `c` in `s` at or
/// before `from`.
pub open spec fn sp_rfind_char(s: Seq<char>, c: char, from: int) -> Option<int>
    decreases from + 1,
{
    if from < 0 || from >= s.len() {
        None
    } else if s[from] == c {
        Some(from)
    } else {
        sp_rfind_char(s, c, from - 1)
    }
}

/// Last occurrence of the character `c` in `s` at or before `from`.
pub fn rfind_char(s: &str, c: char, from: usize) -> (r: Option<usize>)
    ensures
        match r {
            Some(i) => sp_rfind_char(s@, c, from as int) == Some(i as int),
            None => sp_rfind_char(s@, c, from as int) is None,
        },
    decreases from,
{
    if from >= s.unicode_len() {
        return None;
    }
    if s.get_char(from) == c {
        return Some(from);
    }
    if from == 0 {
        proof {
            assert(sp_rfind_char(s@, c, -1) is None);
        }
        None
    } else {
        rfind_char(s, c, from - 1)
    }
}

/// Position of the last occurrence of `pat` in `s` starting at or
/// before `from`.
pub open spec fn sp_rfind(s: Seq<char>, pat: Seq<char>, from: int) -> Option<int>
    decreases from + 1,
{
    if from < 0 || from >= s.len() {
        None
    } else if sp_matches_at(s, pat, from) {
        Some(from)
    } else {
        sp_rfind(s, pat, from - 1)
    }
}

/// Last occurrence of `pat` in `s` starting at or before `from`.
pub fn rfind_from(s: &str, pat: &str, from: usize) -> (r: Option<usize>)
    ensures
        match r {
            Some(i) => sp_rfind(s@, pat@, from as int) == Some(i as int),
            None => sp_rfind(s@, pat@, from as int) is None,
        },
    decreases from,
{
    if from >= s.unicode_len() {
        return None;
    }
    if matches_at(s, pat, from) {
        return Some(from);
    }
    if from == 0 {
        proof {
            assert(sp_rfind(s@, pat@, -1) is None);
        }
        None
    } else {
        rfind_from(s, pat, from - 1)
    }
}

/// End of the line (exclusive) around position `p`.
pub open spec fn sp_line_end(s: Seq<char>, p: int) -> int {
    match sp_find_char(s, '\n', p) {
        Some(i) => i,
        None => s.len() as int,
    }
}

/// Start of the line around position `p`.
pub open spec fn sp_line_start(s: Seq<char>, p: int) -> int {
    match sp_rfind_char(s, '\n', p - 1) {
        Some(i) => i + 1,
        None => 0,
    }
}

/// Whether `c` is one of the whitespace characters.
pub fn is_space(c: char) -> (r: bool)
    ensures
        r == sp_is_space(c),
{
    c == ' ' || c == '\t' || c == '\n' || c == '\r'
}

/// The bounds of `s` with surrounding whitespace dropped: the trimmed
/// text is `s[r.0 .. r.1]`, or empty when `r.0 == r.1`.
#[verifier::loop_isolation(false)]
pub fn trim_bounds(s: &str) -> (r: (usize, usize))
    ensures
        r.0 <= r.1 <= s@.len(),
        sp_trim(s@) == s@.subrange(r.0 as int, r.1 as int),
{
    proof {
        lemma_trim_start_bounds(s@);
        lemma_trim_end_bounds(s@);
    }
    let n = s.unicode_len();
    let mut a: usize = 0;
    while a < n && is_space(s.get_char(a))
        invariant
            a <= n,
            forall|k: int| 0 <= k < a ==> sp_is_space(s@[k]),
            a <= sp_trim_start(s@),
        decreases n - a,
    {
        a += 1;
    }
    assert(a == sp_trim_start(s@));
    let mut b: usize = n;
    while b > a && is_space(s.get_char(b - 1))
        invariant
            a <= b <= n,
            forall|k: int| b <= k < n ==> sp_is_space(s@[k]),
            sp_trim_end(s@) <= b || sp_trim_end(s@) <= a,
        decreases b,
    {
        b -= 1;
    }
    if a >= b {
        proof {
            if sp_trim_start(s@) < sp_trim_end(s@) {
                assert(!sp_is_space(s@[sp_trim_start(s@)]));
                assert(false);
            }
            assert(sp_trim(s@) =~= s@.subrange(a as int, a as int));
        }
        (a, a)
    } else {
        proof {
            assert(!sp_is_space(s@[b - 1]));
            assert(sp_trim_end(s@) >= b);
            assert(sp_trim_end(s@) == b);
        }
        (a, b)
    }
}

/// `s` with surrounding whitespace removed, as a fresh string.
pub fn trim_str(s: &str) -> (r: String)
    ensures
        r@ == sp_trim(s@),
{
    let (a, b) = trim_bounds(s);
    let t = s.substring_char(a, b);
    String::from_str(t)
}

/// End of the whitespace-delimited token starting at `i`: the first
/// whitespace position at or after `i`, or the end of `s`.
pub open spec fn sp_token_end(s: Seq<char>, i: int) -> int
    decreases s.len() - i,
{
    if i < 0 || i >= s.len() {
        s.len() as int
    } else if sp_is_space(s[i]) {
        i
    } else {
        sp_token_end(s, i + 1)
    }
}

/// The first whitespace-delimited token of `s`, if any.
pub open spec fn sp_first_token(s: Seq<char>) -> Option<Seq<char>> {
    let a = sp_trim_start(s);
    if a >= s.len() {
        None
    } else {
        Some(s.subrange(a, sp_token_end(s, a)))
    }
}

/// A token runs from where it starts to its end, within the text.
proof fn lemma_token_end_bounds(s: Seq<char>, i: int)
    requires
        0 <= i <= s.len(),
    ensures
        i <= sp_token_end(s, i) <= s.len(),
    decreases s.len() - i,
{
    if i >= s.len() {
    } else if sp_is_space(s[i]) {
    } else {
        lemma_token_end_bounds(s, i + 1);
    }
}

/// The first whitespace-delimited token of `s`, if any.
#[verifier::loop_isolation(false)]
pub fn first_token(s: &str) -> (r: Option<String>)
    ensures
        match r {
            Some(t) => sp_first_token(s@) == Some(t@),
            None => sp_first_token(s@) is None,
        },
{
    proof {
        lemma_trim_start_bounds(s@);
    }
    let n = s.unicode_len();
    let mut a: usize = 0;
    while a < n && is_space(s.get_char(a))
        invariant
            a <= n,
            forall|k: int| 0 <= k < a ==> sp_is_space(s@[k]),
            a <= sp_trim_start(s@),
        decreases n - a,
    {
        a += 1;
    }
    assert(a == sp_trim_start(s@));
    if a >= n {
        return None;
    }
    proof {
        lemma_token_end_bounds(s@, a as int);
    }
    let b = token_end(s, a);
    Some(String::from_str(s.substring_char(a, b)))
}

/// End of the whitespace-delimited token starting at `i`.
fn token_end(s: &str, i: usize) -> (r: usize)
    ensures
        r == sp_token_end(s@, i as int),
    decreases s@.len() - i,
{
    if i >= s.unicode_len() {
        return s.unicode_len();
    }
    if is_space(s.get_char(i)) {
        return i;
    }
    token_end(s, i + 1)
}

/// A decimal digit.
pub open spec fn sp_is_digit(c: char) -> bool {
    '0' <= c && c <= '9'
}

/// The value of a decimal digit.
pub open spec fn sp_digit_val(c: char) -> int {
    c as int - '0' as int
}

/// Every character of `s` is a decimal digit.
pub open spec fn sp_all_digits(s: Seq<char>) -> bool {
    forall|k: int| 0 <= k < s.len() ==> sp_is_digit(#[trigger] s[k])
}

/// The number that a digit string denotes, most significant first.
pub open spec fn sp_digits_val(s: Seq<char>) -> int
    decreases s.len(),
{
    if s.len() == 0 {
        0
    } else {
        sp_digits_val(s.drop_last()) * 10 + sp_digit_val(s.last())
    }
}

/// `s` is an optionally signed, non-empty decimal numeral.
pub open spec fn sp_is_int_literal(s: Seq<char>) -> bool {
    if s.len() == 0 {
        false
    } else if s[0] == '-' || s[0] == '+' {
        s.len() >= 2 && sp_all_digits(s.subrange(1, s.len() as int))
    } else {
        sp_all_digits(s)
    }
}

/// The signed value of a decimal numeral.
pub open spec fn sp_int_val(s: Seq<char>) -> int {
    if s.len() > 0 && s[0] == '-' {
        -sp_digits_val(s.subrange(1, s.len() as int))
    } else if s.len() > 0 && s[0] == '+' {
        sp_digits_val(s.subrange(1, s.len() as int))
    } else {
        sp_digits_val(s)
    }
}

proof fn lemma_digits_val_nonneg(s: Seq<char>)
    requires
        sp_all_digits(s),
    ensures
        sp_digits_val(s) >= 0,
    decreases s.len(),
{
    if s.len() > 0 {
        assert(sp_all_digits(s.drop_last()));
        lemma_digits_val_nonneg(s.drop_last());
    }
}

/// A digit string is worth at least any of its prefixes.
proof fn lemma_digits_prefix_le(s: Seq<char>, k: int)
    requires
        sp_all_digits(s),
        0 <= k <= s.len(),
    ensures
        sp_digits_val(s.subrange(0, k)) <= sp_digits_val(s),
    decreases s.len(),
{
    if k == s.len() {
        assert(s.subrange(0, k) =~= s);
    } else {
        assert(sp_all_digits(s.drop_last()));
        assert(s.drop_last().subrange(0, k) =~= s.subrange(0, k));
        lemma_digits_prefix_le(s.drop_last(), k);
        lemma_digits_val_nonneg(s.drop_last());
    }
}

/// Read a decimal integer, as the result of parsing the whole of `s`.
#[verifier::loop_isolation(false)]
pub fn parse_i32(s: &str) -> (r: Option<i32>)
    ensures
        match r {
            Some(v) => sp_is_int_literal(s@) && v as int == sp_int_val(s@),
            None => !sp_is_int_literal(s@) || sp_int_val(s@) < i32::MIN || sp_int_val(s@)
                > i32::MAX,
        },
{
    let n = s.unicode_len();
    if n == 0 {
        return None;
    }
    let c0 = s.get_char(0);
    let negative = c0 == '-';
    let start: usize = if c0 == '-' || c0 == '+' {
        1
    } else {
        0
    };
    if n == start {
        return None;
    }
    let ghost digits = s@.subrange(start as int, n as int);
    let limit: i64 = if negative {
        2147483648
    } else {
        2147483647
    };
    let mut acc: i64 = 0;
    let mut i: usize = start;
    while i < n
        invariant
            start <= i <= n,
            forall|k: int| start <= k < i ==> sp_is_digit(#[trigger] s@[k]),
            acc == sp_digits_val(s@.subrange(start as int, i as int)),
            0 <= acc <= limit,
        decreases n - i,
    {
        let c = s.get_char(i);
        if !(c >= '0' && c <= '9') {
            assert(!sp_is_int_literal(s@)) by {
                assert(digits[i - start] == s@[i as int]);
            }
            return None;
        }
        let d = (c as u32 - '0' as u32) as i64;
        proof {
            assert(s@.subrange(start as int, i + 1).drop_last() =~= s@.subrange(
                start as int,
                i as int,
            ));
        }
        acc = acc * 10 + d;
        i += 1;
        if acc > limit {
            proof {
                let done = s@.subrange(start as int, i as int);
                if sp_is_int_literal(s@) {
                    if start == 0 {
                        assert(digits =~= s@);
                    } else {
                        assert(digits =~= s@.subrange(1, s@.len() as int));
                    }
                    assert(sp_all_digits(digits));
                    assert(digits.subrange(0, i - start) =~= done);
                    lemma_digits_prefix_le(digits, i - start);
                    assert(sp_digits_val(digits) >= acc);
                    assert(sp_int_val(s@) < i32::MIN || sp_int_val(s@) > i32::MAX);
                }
            }
            return None;
        }
    }
    proof {
        if start == 0 {
            assert(digits =~= s@);
        } else {
            assert(digits =~= s@.subrange(1, s@.len() as int));
        }
        assert forall|k: int| 0 <= k < digits.len() implies sp_is_digit(digits[k]) by {
            assert(digits[k] == s@[k + start]);
        }
        assert(sp_is_int_literal(s@));
    }
    if negative {
        Some((-acc) as i32)
    } else {
        Some(acc as i32)
    }
}

/// Read an unsigned decimal integer (optionally with a leading plus),
/// as the result of parsing the whole of `s`.
#[verifier::loop_isolation(false)]
pub fn parse_u64_dec(s: &str) -> (r: Option<u64>)
    ensures
        match r {
            Some(v) => sp_is_int_literal(s@) && s@[0] != '-' && v as int == sp_int_val(s@),
            None => !sp_is_int_literal(s@) || s@[0] == '-' || sp_int_val(s@) > u64::MAX,
        },
{
    let n = s.unicode_len();
    if n == 0 {
        return None;
    }
    let c0 = s.get_char(0);
    if c0 == '-' {
        return None;
    }
    let start: usize = if c0 == '+' {
        1
    } else {
        0
    };
    if n == start {
        return None;
    }
    let ghost digits = s@.subrange(start as int, n as int);
    let mut acc: u128 = 0;
    let mut i: usize = start;
    while i < n
        invariant
            start <= i <= n,
            forall|k: int| start <= k < i ==> sp_is_digit(#[trigger] s@[k]),
            acc == sp_digits_val(s@.subrange(start as int, i as int)),
            acc <= u64::MAX,
        decreases n - i,
    {
        let c = s.get_char(i);
        if !(c >= '0' && c <= '9') {
            assert(!sp_is_int_literal(s@)) by {
                assert(digits[i - start] == s@[i as int]);
            }
            return None;
        }
        let d = (c as u32 - '0' as u32) as u128;
        proof {
            assert(s@.subrange(start as int, i + 1).drop_last() =~= s@.subrange(
                start as int,
                i as int,
            ));
        }
        acc = acc * 10 + d;
        i += 1;
        if acc > u64::MAX as u128 {
            proof {
                let done = s@.subrange(start as int, i as int);
                if sp_is_int_literal(s@) {
                    if start == 0 {
                        assert(digits =~= s@);
                    } else {
                        assert(digits =~= s@.subrange(1, s@.len() as int));
                    }
                    assert(sp_all_digits(digits));
                    assert(digits.subrange(0, i - start) =~= done);
                    lemma_digits_prefix_le(digits, i - start);
                    assert(sp_int_val(s@) > u64::MAX);
                }
            }
            return None;
        }
    }
    proof {
        if start == 0 {
            assert(digits =~= s@);
        } else {
            assert(digits =~= s@.subrange(1, s@.len() as int));
        }
        assert forall|k: int| 0 <= k < digits.len() implies sp_is_digit(digits[k]) by {
            assert(digits[k] == s@[k + start]);
        }
        assert(sp_is_int_literal(s@));
    }
    Some(acc as u64)
}

/// A hexadecimal digit.
pub open spec fn sp_is_hex_digit(c: char) -> bool {
    ('0' <= c && c <= '9') || ('a' <= c && c <= 'f') || ('A' <= c && c <= 'F')
}

/// The value of a hexadecimal digit.
pub open spec fn sp_hex_digit_val(c: char) -> int {
    if '0' <= c && c <= '9' {
        c as int - '0' as int
    } else if 'a' <= c && c <= 'f' {
        c as int - 'a' as int + 10
    } else {
        c as int - 'A' as int + 10
    }
}

/// Every character of `s` is a hexadecimal digit.
pub open spec fn sp_all_hex_digits(s: Seq<char>) -> bool {
    forall|k: int| 0 <= k < s.len() ==> sp_is_hex_digit(#[trigger] s[k])
}

/// The number that a hexadecimal digit string denotes.
pub open spec fn sp_hex_val(s: Seq<char>) -> int
    decreases s.len(),
{
    if s.len() == 0 {
        0
    } else {
        sp_hex_val(s.drop_last()) * 16 + sp_hex_digit_val(s.last())
    }
}

proof fn lemma_hex_val_nonneg(s: Seq<char>)
    requires
        sp_all_hex_digits(s),
    ensures
        sp_hex_val(s) >= 0,
    decreases s.len(),
{
    if s.len() > 0 {
        assert(sp_all_hex_digits(s.drop_last()));
        lemma_hex_val_nonneg(s.drop_last());
    }
}

proof fn lemma_hex_prefix_le(s: Seq<char>, k: int)
    requires
        sp_all_hex_digits(s),
        0 <= k <= s.len(),
    ensures
        sp_hex_val(s.subrange(0, k)) <= sp_hex_val(s),
    decreases s.len(),
{
    if k == s.len() {
        assert(s.subrange(0, k) =~= s);
    } else {
        assert(sp_all_hex_digits(s.drop_last()));
        assert(s.drop_last().subrange(0, k) =~= s.subrange(0, k));
        lemma_hex_prefix_le(s.drop_last(), k);
        lemma_hex_val_nonneg(s.drop_last());
    }
}

/// Read an unsigned hexadecimal number, as the result of parsing the
/// whole of `s` (digits only, no sign, no prefix).
#[verifier::loop_isolation(false)]
pub fn parse_hex_u64(s: &str) -> (r: Option<u64>)
    ensures
        match r {
            Some(v) => s@.len() > 0 && sp_all_hex_digits(s@) && v as int == sp_hex_val(s@),
            None => s@.len() == 0 || !sp_all_hex_digits(s@) || sp_hex_val(s@) > u64::MAX,
        },
{
    let n = s.unicode_len();
    if n == 0 {
        return None;
    }
    let mut acc: u128 = 0;
    let mut i: usize = 0;
    while i < n
        invariant
            i <= n,
            forall|k: int| 0 <= k < i ==> sp_is_hex_digit(#[trigger] s@[k]),
            acc == sp_hex_val(s@.subrange(0, i as int)),
            acc <= u64::MAX,
        decreases n - i,
    {
        let c = s.get_char(i);
        let d: u128 = if c >= '0' && c <= '9' {
            (c as u32 - '0' as u32) as u128
        } else if c >= 'a' && c <= 'f' {
            (c as u32 - 'a' as u32) as u128 + 10
        } else if c >= 'A' && c <= 'F' {
            (c as u32 - 'A' as u32) as u128 + 10
        } else {
            return None;
        };
        proof {
            assert(s@.subrange(0, i + 1).drop_last() =~= s@.subrange(0, i as int));
        }
        acc = acc * 16 + d;
        i += 1;
        if acc > u64::MAX as u128 {
            proof {
                if sp_all_hex_digits(s@) {
                    assert(s@.subrange(0, i as int) =~= s@.subrange(0, i as int));
                    lemma_hex_prefix_le(s@, i as int);
                }
            }
            return None;
        }
    }
    proof {
        assert(s@.subrange(0, n as int) =~= s@);
    }
    Some(acc as u64)
}

} // verus!
