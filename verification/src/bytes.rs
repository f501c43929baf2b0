//! Byte-string helpers shared by the whole crate.
//!
//! All textual data that crosses a process boundary (command arguments,
//! file contents, environment entries) is modelled as a byte string, so the
//! contracts below are stated over `Seq<u8>`.  ASCII string literals are
//! carried into specifications through [`ascii_bytes`].

use vstd::prelude::*;

verus! {

/// The bytes of an ASCII character sequence.
pub open spec fn ascii_bytes(s: Seq<char>) -> Seq<u8> {
    s.map(|_i: int, c: char| c as u8)
}

/// The view of an optional byte string.
pub open spec fn opt_bytes(o: Option<Vec<u8>>) -> Option<Seq<u8>> {
    match o {
        Some(v) => Some(v@),
        None => None,
    }
}

/// ASCII decimal digit.
pub open spec fn is_digit(b: u8) -> bool {
    48 <= b <= 57
}

pub open spec fn all_digits(s: Seq<u8>) -> bool {
    forall|i: int| 0 <= i < s.len() ==> is_digit(#[trigger] s[i])
}

/// Value of a digit string, most significant digit first.
pub open spec fn dec_value(s: Seq<u8>) -> int
    decreases s.len(),
{
    if s.len() == 0 {
        0
    } else {
        dec_value(s.drop_last()) * 10 + s.last() - 48
    }
}

/// Decimal representation of `n`, without a sign and without leading zeros
/// (a single `0` for zero).
pub open spec fn dec_digits(n: nat) -> Seq<u8>
    decreases n,
{
    if n < 10 {
        seq![(n + 48) as u8]
    } else {
        dec_digits(n / 10).push((n % 10 + 48) as u8)
    }
}

/// ASCII whitespace, the set `str::trim` removes for ASCII text.
pub open spec fn is_ascii_space(b: u8) -> bool {
    b == 32 || b == 9 || b == 10 || b == 13 || b == 11 || b == 12
}

pub open spec fn count_leading_spaces(s: Seq<u8>) -> int
    decreases s.len(),
{
    if s.len() == 0 || !is_ascii_space(s[0]) {
        0
    } else {
        1 + count_leading_spaces(s.drop_first())
    }
}

pub open spec fn count_trailing_spaces(s: Seq<u8>) -> int
    decreases s.len(),
{
    if s.len() == 0 || !is_ascii_space(s.last()) {
        0
    } else {
        1 + count_trailing_spaces(s.drop_last())
    }
}

/// `s` with leading and trailing ASCII whitespace removed.
pub open spec fn trim_spec(s: Seq<u8>) -> Seq<u8> {
    let t = s.subrange(count_leading_spaces(s), s.len() as int);
    t.subrange(0, t.len() - count_trailing_spaces(t))
}

/// Index of the first occurrence of `b` in `s`.
pub open spec fn find_byte(s: Seq<u8>, b: u8) -> Option<int>
    decreases s.len(),
{
    if s.len() == 0 {
        None
    } else if s[0] == b {
        Some(0)
    } else {
        match find_byte(s.drop_first(), b) {
            Some(i) => Some(i + 1),
            None => None,
        }
    }
}

pub open spec fn nonempty_digits(s: Seq<u8>) -> bool {
    s.len() > 0 && all_digits(s)
}

/// A signed decimal integer: an optional leading `-`, then digits.
pub open spec fn is_int_bytes(s: Seq<u8>) -> bool {
    if s.len() > 0 && s[0] == 45 {
        nonempty_digits(s.drop_first())
    } else {
        nonempty_digits(s)
    }
}

/// The value of a signed decimal integer.
pub open spec fn int_value(s: Seq<u8>) -> int {
    if s.len() > 0 && s[0] == 45 {
        -dec_value(s.drop_first())
    } else {
        dec_value(s)
    }
}

/// A decimal fraction: digits, optionally followed by `.` and more digits.
pub open spec fn is_fraction_bytes(s: Seq<u8>) -> bool {
    match find_byte(s, 46) {
        None => nonempty_digits(s),
        Some(i) => nonempty_digits(s.subrange(0, i)) && nonempty_digits(
            s.subrange(i + 1, s.len() as int),
        ),
    }
}

/// `s` with every ASCII upper-case letter replaced by its lower-case form.
pub open spec fn ascii_lower(s: Seq<u8>) -> Seq<u8> {
    s.map(|_i: int, b: u8| if 65 <= b <= 90 { (b + 32) as u8 } else { b })
}

pub proof fn lemma_find_byte(s: Seq<u8>, b: u8)
    ensures
        match find_byte(s, b) {
            Some(i) => 0 <= i < s.len() && s[i] == b && forall|j: int| 0 <= j < i ==> s[j] != b,
            None => forall|j: int| 0 <= j < s.len() ==> s[j] != b,
        },
    decreases s.len(),
{
    if s.len() > 0 && s[0] != b {
        lemma_find_byte(s.drop_first(), b);
        match find_byte(s.drop_first(), b) {
            Some(i) => {
                assert(s[i + 1] == s.drop_first()[i]);
                assert forall|j: int| 0 <= j < i + 1 implies s[j] != b by {
                    if j > 0 {
                        assert(s.drop_first()[j - 1] != b);
                    }
                }
            },
            None => {
                assert forall|j: int| 0 <= j < s.len() implies s[j] != b by {
                    if j > 0 {
                        assert(s.drop_first()[j - 1] != b);
                    }
                }
            },
        }
    }
}

pub proof fn lemma_count_leading_spaces(s: Seq<u8>)
    ensures
        0 <= count_leading_spaces(s) <= s.len(),
        forall|j: int| 0 <= j < count_leading_spaces(s) ==> is_ascii_space(#[trigger] s[j]),
        count_leading_spaces(s) < s.len() ==> !is_ascii_space(s[count_leading_spaces(s)]),
    decreases s.len(),
{
    if s.len() > 0 && is_ascii_space(s[0]) {
        lemma_count_leading_spaces(s.drop_first());
        assert forall|j: int| 0 <= j < count_leading_spaces(s) implies is_ascii_space(
            #[trigger] s[j],
        ) by {
            if j > 0 {
                assert(is_ascii_space(s.drop_first()[j - 1]));
            }
        }
    }
}

pub proof fn lemma_count_trailing_spaces(s: Seq<u8>)
    ensures
        0 <= count_trailing_spaces(s) <= s.len(),
        forall|j: int|
            s.len() - count_trailing_spaces(s) <= j < s.len() ==> is_ascii_space(#[trigger] s[j]),
        count_trailing_spaces(s) < s.len() ==> !is_ascii_space(
            s[s.len() - count_trailing_spaces(s) - 1],
        ),
    decreases s.len(),
{
    if s.len() > 0 && is_ascii_space(s.last()) {
        lemma_count_trailing_spaces(s.drop_last());
        assert forall|j: int|
            s.len() - count_trailing_spaces(s) <= j < s.len() implies is_ascii_space(
            #[trigger] s[j],
        ) by {
            if j < s.len() - 1 {
                assert(is_ascii_space(s.drop_last()[j]));
            }
        }
    }
}

/// Appending one digit multiplies the value by ten and adds that digit.
pub proof fn lemma_dec_value_extend(s: Seq<u8>, i: int)
    requires
        0 <= i < s.len(),
    ensures
        dec_value(s.subrange(0, i + 1)) == dec_value(s.subrange(0, i)) * 10 + (s[i] - 48),
{
    assert(s.subrange(0, i + 1).drop_last() =~= s.subrange(0, i));
    assert(s.subrange(0, i + 1).last() == s[i]);
}

/// A digit string's value is never negative.
pub proof fn lemma_dec_value_nonneg(s: Seq<u8>)
    requires
        all_digits(s),
    ensures
        dec_value(s) >= 0,
    decreases s.len(),
{
    if s.len() > 0 {
        assert(all_digits(s.drop_last()));
        lemma_dec_value_nonneg(s.drop_last());
    }
}

/// Longer digit strings never have a smaller value.
pub proof fn lemma_dec_value_mono(s: Seq<u8>, i: int, j: int)
    requires
        0 <= i <= j <= s.len(),
        all_digits(s),
    ensures
        dec_value(s.subrange(0, i)) <= dec_value(s.subrange(0, j)),
    decreases j - i,
{
    if i < j {
        lemma_dec_value_extend(s, j - 1);
        lemma_dec_value_mono(s, i, j - 1);
        assert(all_digits(s.subrange(0, j - 1)));
        lemma_dec_value_nonneg(s.subrange(0, j - 1));
    }
}

/// Converts an ASCII `&str` literal into its bytes.
pub fn str_bytes(s: &str) -> (r: Vec<u8>)
    requires
        s.is_ascii(),
    ensures
        r@ == ascii_bytes(s@),
{
    let r = s.as_bytes_vec();
    proof {
        broadcast use vstd::string::is_ascii_spec_bytes;

        assert(r@ =~= ascii_bytes(s@));
    }
    r
}

/// Appends all of `src` to `dst`.
pub fn push_all(dst: &mut Vec<u8>, src: &[u8])
    ensures
        final(dst)@ == old(dst)@ + src@,
{
    let n: usize = src.len();
    let mut i: usize = 0;
    while i < n
        invariant
            i <= n,
            n == src@.len(),
            dst@ == old(dst)@ + src@.subrange(0, i as int),
        decreases n - i,
    {
        dst.push(src[i]);
        proof {
            assert(old(dst)@ + src@.subrange(0, i + 1) =~= (old(dst)@ + src@.subrange(
                0,
                i as int,
            )).push(src@[i as int]));
        }
        i = i + 1;
    }
    proof {
        assert(src@.subrange(0, n as int) =~= src@);
    }
}

/// Byte-for-byte equality of two slices.
pub fn bytes_eq(a: &[u8], b: &[u8]) -> (r: bool)
    ensures
        r <==> a@ == b@,
{
    if a.len() != b.len() {
        proof {
            assert(a@.len() != b@.len());
        }
        return false;
    }
    let n: usize = a.len();
    let mut i: usize = 0;
    while i < n
        invariant
            i <= n,
            n == a@.len() == b@.len(),
            forall|j: int| 0 <= j < i ==> a@[j] == b@[j],
        decreases n - i,
    {
        if a[i] != b[i] {
            return false;
        }
        i = i + 1;
    }
    proof {
        assert(a@ =~= b@);
    }
    true
}

/// Decimal representation of `n`.
pub fn u64_to_dec(n: u64) -> (r: Vec<u8>)
    ensures
        r@ == dec_digits(n as nat),
    decreases n,
{
    if n < 10 {
        let mut r: Vec<u8> = Vec::new();
        r.push((n as u8) + 48);
        proof {
            assert(r@ =~= dec_digits(n as nat));
        }
        r
    } else {
        let mut r = u64_to_dec(n / 10);
        r.push(((n % 10) as u8) + 48);
        r
    }
}

/// Parses an unsigned decimal integer; `None` when `s` is empty, holds a
/// non-digit, or its value does not fit in a `u64`.
pub fn parse_u64(s: &[u8]) -> (r: Option<u64>)
    ensures
        match r {
            Some(v) => s@.len() > 0 && all_digits(s@) && v == dec_value(s@),
            None => s@.len() == 0 || !all_digits(s@) || dec_value(s@) > u64::MAX,
        },
{
    let n: usize = s.len();
    if n == 0 {
        return None;
    }
    let mut acc: u64 = 0;
    let mut i: usize = 0;
    while i < n
        invariant
            i <= n,
            n == s@.len(),
            all_digits(s@.subrange(0, i as int)),
            acc == dec_value(s@.subrange(0, i as int)),
        decreases n - i,
    {
        let b = s[i];
        if b < 48 || b > 57 {
            return None;
        }
        let d: u64 = (b - 48) as u64;
        proof {
            lemma_dec_value_extend(s@, i as int);
        }
        if acc > (u64::MAX - d) / 10 {
            proof {
                // The prefix through `i` already overflows, and the value only
                // grows with further digits whenever all of them are digits.
                assert(dec_value(s@.subrange(0, i + 1)) > u64::MAX);
                if all_digits(s@) {
                    lemma_dec_value_mono(s@, i + 1, n as int);
                    assert(s@.subrange(0, n as int) =~= s@);
                }
            }
            return None;
        }
        acc = acc * 10 + d;
        proof {
            assert(all_digits(s@.subrange(0, i + 1)));
        }
        i = i + 1;
    }
    proof {
        assert(s@.subrange(0, n as int) =~= s@);
    }
    Some(acc)
}

/// Parses a signed decimal integer that fits in an `i32`.
pub fn parse_i32(s: &[u8]) -> (r: Option<i32>)
    ensures
        match r {
            Some(v) => is_int_bytes(s@) && i32::MIN <= int_value(s@) <= i32::MAX && v == int_value(
                s@,
            ),
            None => !(is_int_bytes(s@) && i32::MIN <= int_value(s@) <= i32::MAX),
        },
{
    let n: usize = s.len();
    if n == 0 {
        return None;
    }
    if s[0] == 45 {
        let digits = sub_bytes(s, 1, n);
        proof {
            assert(digits@ =~= s@.drop_first());
        }
        match parse_u64(digits.as_slice()) {
            Some(v) => {
                if v <= 2147483648u64 {
                    let neg: i64 = -(v as i64);
                    Some(neg as i32)
                } else {
                    proof {
                        assert(int_value(s@) < i32::MIN);
                    }
                    None
                }
            },
            None => {
                proof {
                    if nonempty_digits(s@.drop_first()) {
                        // The digit string overflowed a `u64`, so its negation
                        // is far below `i32::MIN`.
                        assert(dec_value(s@.drop_first()) > u64::MAX);
                        assert(int_value(s@) < i32::MIN);
                    }
                }
                None
            },
        }
    } else {
        match parse_u64(s) {
            Some(v) => {
                if v <= 2147483647u64 {
                    Some(v as i32)
                } else {
                    None
                }
            },
            None => {
                proof {
                    if nonempty_digits(s@) {
                        assert(dec_value(s@) > u64::MAX);
                    }
                }
                None
            },
        }
    }
}

/// Whether `s` is a decimal fraction.
pub fn is_fraction(s: &[u8]) -> (r: bool)
    ensures
        r == is_fraction_bytes(s@),
{
    let n: usize = s.len();
    match find_byte_index(s, 46) {
        None => {
            let r = all_digits_exec(s, 0, n);
            proof {
                assert(s@.subrange(0, n as int) =~= s@);
            }
            r && n > 0
        },
        Some(i) => {
            proof {
                lemma_find_byte(s@, 46);
            }
            let head = all_digits_exec(s, 0, i);
            let tail = all_digits_exec(s, i + 1, n);
            head && i > 0 && tail && i + 1 < n
        },
    }
}

/// Whether every byte of `s[from..to]` is a decimal digit.
pub fn all_digits_exec(s: &[u8], from: usize, to: usize) -> (r: bool)
    requires
        from <= to <= s@.len(),
    ensures
        r == all_digits(s@.subrange(from as int, to as int)),
{
    let mut i: usize = from;
    while i < to
        invariant
            from <= i <= to <= s@.len(),
            forall|j: int| from <= j < i ==> is_digit(#[trigger] s@[j]),
        decreases to - i,
    {
        let b = s[i];
        if b < 48 || b > 57 {
            proof {
                assert(s@.subrange(from as int, to as int)[i - from] == s@[i as int]);
            }
            return false;
        }
        i = i + 1;
    }
    proof {
        assert forall|j: int| 0 <= j < to - from implies is_digit(
            #[trigger] s@.subrange(from as int, to as int)[j],
        ) by {
            assert(s@.subrange(from as int, to as int)[j] == s@[j + from]);
        }
    }
    true
}

/// Whether `b` occurs in `s`, and where it first does.
pub fn find_byte_index(s: &[u8], b: u8) -> (r: Option<usize>)
    ensures
        match r {
            Some(i) => find_byte(s@, b) == Some(i as int),
            None => find_byte(s@, b) is None,
        },
{
    proof {
        lemma_find_byte(s@, b);
    }
    let n: usize = s.len();
    let mut i: usize = 0;
    while i < n
        invariant
            i <= n,
            n == s@.len(),
            forall|j: int| 0 <= j < i ==> s@[j] != b,
            match find_byte(s@, b) {
                Some(k) => 0 <= k < s@.len() && s@[k] == b && forall|j: int|
                    0 <= j < k ==> s@[j] != b,
                None => forall|j: int| 0 <= j < s@.len() ==> s@[j] != b,
            },
        decreases n - i,
    {
        if s[i] == b {
            return Some(i);
        }
        i = i + 1;
    }
    None
}

/// Copies `s[from..to]` into a fresh vector.
pub fn sub_bytes(s: &[u8], from: usize, to: usize) -> (r: Vec<u8>)
    requires
        from <= to <= s@.len(),
    ensures
        r@ == s@.subrange(from as int, to as int),
{
    let mut r: Vec<u8> = Vec::new();
    let mut i: usize = from;
    while i < to
        invariant
            from <= i <= to <= s@.len(),
            r@ == s@.subrange(from as int, i as int),
        decreases to - i,
    {
        r.push(s[i]);
        proof {
            assert(s@.subrange(from as int, i + 1) =~= s@.subrange(from as int, i as int).push(
                s@[i as int],
            ));
        }
        i = i + 1;
    }
    r
}

/// `s` with leading and trailing ASCII whitespace removed.
pub fn trim_ascii(s: &[u8]) -> (r: Vec<u8>)
    ensures
        r@ == trim_spec(s@),
{
    let n: usize = s.len();
    proof {
        lemma_count_leading_spaces(s@);
    }
    let mut start: usize = 0;
    while start < n
        invariant
            start <= n,
            n == s@.len(),
            forall|j: int| 0 <= j < start ==> is_ascii_space(#[trigger] s@[j]),
            start <= count_leading_spaces(s@) <= n,
        ensures
            start == count_leading_spaces(s@),
        decreases n - start,
    {
        let b = s[start];
        if !(b == 32 || b == 9 || b == 10 || b == 13 || b == 11 || b == 12) {
            proof {
                lemma_count_leading_spaces(s@);
                // A non-space byte ends the leading run here.
                if start < count_leading_spaces(s@) {
                    assert(is_ascii_space(s@[start as int]));
                }
            }
            break ;
        }
        proof {
            lemma_count_leading_spaces(s@);
            if start == count_leading_spaces(s@) {
                assert(!is_ascii_space(s@[start as int]));
            }
        }
        start = start + 1;
    }
    proof {
        lemma_count_leading_spaces(s@);
    }
    let ghost t = s@.subrange(count_leading_spaces(s@), s@.len() as int);
    proof {
        lemma_count_trailing_spaces(t);
    }
    let mut end: usize = n;
    while end > start
        invariant
            start <= end <= n,
            n == s@.len(),
            start == count_leading_spaces(s@),
            t == s@.subrange(start as int, n as int),
            forall|j: int| end <= j < n ==> is_ascii_space(#[trigger] s@[j]),
            end - start >= t.len() - count_trailing_spaces(t) >= 0,
        ensures
            end - start == t.len() - count_trailing_spaces(t),
        decreases end,
    {
        let b = s[end - 1];
        if !(b == 32 || b == 9 || b == 10 || b == 13 || b == 11 || b == 12) {
            proof {
                lemma_count_trailing_spaces(t);
                if end - start > t.len() - count_trailing_spaces(t) {
                    assert(t[end - start - 1] == s@[end - 1]);
                    assert(is_ascii_space(s@[end - 1]));
                }
            }
            break ;
        }
        proof {
            lemma_count_trailing_spaces(t);
            if end - start == t.len() - count_trailing_spaces(t) {
                assert(t[end - start - 1] == s@[end - 1]);
                assert(!is_ascii_space(s@[end - 1]));
            }
        }
        end = end - 1;
    }
    let r = sub_bytes(s, start, end);
    proof {
        assert(r@ =~= trim_spec(s@));
    }
    r
}

/// ASCII lower-casing.
pub fn to_ascii_lower(s: &[u8]) -> (r: Vec<u8>)
    ensures
        r@ == ascii_lower(s@),
{
    let n: usize = s.len();
    let mut r: Vec<u8> = Vec::new();
    let mut i: usize = 0;
    while i < n
        invariant
            i <= n,
            n == s@.len(),
            r@ == ascii_lower(s@.subrange(0, i as int)),
        decreases n - i,
    {
        let b = s[i];
        let low: u8 = if b >= 65 && b <= 90 {
            b + 32
        } else {
            b
        };
        r.push(low);
        proof {
            assert(ascii_lower(s@.subrange(0, i + 1)) =~= ascii_lower(
                s@.subrange(0, i as int),
            ).push(low));
        }
        i = i + 1;
    }
    proof {
        assert(s@.subrange(0, n as int) =~= s@);
    }
    r
}

} // verus!
