//! Verified text helpers: digit parsing, the "leading numeric id" sort key
//! used by composite name fields such as `1234/name`, and lexicographic
//! ordering of strings.

use vstd::prelude::*;

verus! {

/// Whether `c` is an ASCII decimal digit.
pub open spec fn is_digit(c: char) -> bool {
    ('0' as int) <= (c as int) && (c as int) <= ('9' as int)
}

/// Numeric value of an ASCII digit.
pub open spec fn digit_val(c: char) -> int {
    c as int - '0' as int
}

/// Whether every character of `s` is an ASCII decimal digit.
pub open spec fn all_digits(s: Seq<char>) -> bool {
    forall|i: int| 0 <= i < s.len() ==> is_digit(#[trigger] s[i])
}

/// Mathematical value of a digit string, most significant digit first.
pub open spec fn digits_value(s: Seq<char>) -> int
    decreases s.len(),
{
    if s.len() == 0 {
        0
    } else {
        digits_value(s.drop_last()) * 10 + digit_val(s.last())
    }
}

/// Value parsed from a whole string as a `u32`, with the "fall back to 0"
/// convention: an empty string, a non-digit character, or overflow all
/// yield 0.
pub open spec fn parse_u32_or_zero(s: Seq<char>) -> u32 {
    if s.len() > 0 && all_digits(s) && digits_value(s) <= u32::MAX {
        digits_value(s) as u32
    } else {
        0
    }
}

/// Value parsed from a whole string as a `u64`, with the same convention.
pub open spec fn parse_u64_or_zero(s: Seq<char>) -> u64 {
    if s.len() > 0 && all_digits(s) && digits_value(s) <= u64::MAX {
        digits_value(s) as u64
    } else {
        0
    }
}

/// Index of the first `/` in `s`, or `s.len()` if there is none.
pub open spec fn first_slash(s: Seq<char>) -> int
    decreases s.len(),
{
    if s.len() == 0 {
        0
    } else if s[0] == '/' {
        0
    } else {
        1 + first_slash(s.drop_first())
    }
}

/// The part of `s` before its first `/` (all of `s` if there is none).
pub open spec fn slash_prefix(s: Seq<char>) -> Seq<char> {
    s.take(first_slash(s))
}

/// Sort key of a composite `id/name` field: the leading numeric id, with 0
/// standing in for anything unparsable.
pub open spec fn name_sort_key(s: Seq<char>) -> u32 {
    parse_u32_or_zero(slash_prefix(s))
}

/// `first_slash` is determined by the characters it scans: any index whose
/// earlier characters are all non-`/` and which either sits on a `/` or at
/// the end is the first slash.
pub proof fn lemma_first_slash_unique(s: Seq<char>, p: int)
    requires
        0 <= p <= s.len(),
        forall|i: int| 0 <= i < p ==> s[i] != '/',
        p < s.len() ==> s[p] == '/',
    ensures
        first_slash(s) == p,
    decreases s.len(),
{
    if s.len() == 0 {
    } else if p == 0 {
    } else {
        assert forall|i: int| 0 <= i < p - 1 implies s.drop_first()[i] != '/' by {
            assert(s[i + 1] != '/');
        }
        if p - 1 < s.drop_first().len() {
            assert(s.drop_first()[p - 1] == s[p]);
        }
        lemma_first_slash_unique(s.drop_first(), p - 1);
    }
}

/// Digit-string values only grow as the string is extended at the back.
pub proof fn lemma_digits_value_monotone(s: Seq<char>, i: int, j: int)
    requires
        0 <= i <= j <= s.len(),
        forall|k: int| 0 <= k < s.len() ==> digit_val(#[trigger] s[k]) >= 0,
    ensures
        digits_value(s.take(i)) <= digits_value(s.take(j)),
        digits_value(s.take(i)) >= 0,
    decreases j - i,
{
    if i == j {
        lemma_digits_value_nonneg(s.take(i));
    } else {
        lemma_digits_value_monotone(s, i, j - 1);
        assert(s.take(j).drop_last() =~= s.take(j - 1));
        assert(s.take(j).last() == s[j - 1]);
        lemma_digits_value_nonneg(s.take(j - 1));
    }
}

pub proof fn lemma_digits_value_nonneg(s: Seq<char>)
    requires
        forall|k: int| 0 <= k < s.len() ==> digit_val(#[trigger] s[k]) >= 0,
    ensures
        digits_value(s) >= 0,
    decreases s.len(),
{
    if s.len() > 0 {
        assert forall|k: int| 0 <= k < s.drop_last().len() implies digit_val(
            #[trigger] s.drop_last()[k],
        ) >= 0 by {
            assert(s[k] == s.drop_last()[k]);
        }
        lemma_digits_value_nonneg(s.drop_last());
    }
}

/// Parses the leading numeric id of a composite `id/name` field, exactly as
/// `name_sort_key` describes: the digits before the first `/`, or 0 when
/// that segment is empty, contains a non-digit, or overflows a `u32`.
pub fn parse_name_key(s: &str) -> (k: u32)
    ensures
        k == name_sort_key(s@),
{
    let n = s.unicode_len();
    // Find the first slash.
    let mut p: usize = 0;
    loop
        invariant
            0 <= p <= n,
            n == s@.len(),
            forall|i: int| 0 <= i < p ==> s@[i] != '/',
        ensures
            0 <= p <= n,
            forall|i: int| 0 <= i < p ==> s@[i] != '/',
            p < n ==> s@[p as int] == '/',
        decreases n - p,
    {
        if p >= n {
            break;
        }
        if s.get_char(p) == '/' {
            break;
        }
        p = p + 1;
    }
    proof {
        lemma_first_slash_unique(s@, p as int);
    }
    let ghost prefix = slash_prefix(s@);
    assert(prefix =~= s@.take(p as int));
    if p == 0 {
        return 0;
    }
    // Parse the digits of the prefix, falling back to 0 on a non-digit or
    // on overflow.
    let mut acc: u64 = 0;
    let mut i: usize = 0;
    while i < p
        invariant
            0 <= i <= p <= n,
            n == s@.len(),
            prefix == slash_prefix(s@),
            prefix == s@.take(p as int),
            prefix.len() == p,
            forall|k: int| 0 <= k < i ==> is_digit(#[trigger] prefix[k]),
            acc <= u32::MAX,
            acc == digits_value(prefix.take(i as int)),
        decreases p - i,
    {
        let c = s.get_char(i);
        assert(prefix[i as int] == s@[i as int]);
        let cv = c as u32;
        if cv < '0' as u32 || cv > '9' as u32 {
            assert(!is_digit(prefix[i as int]));
            assert(!all_digits(prefix));
            return 0;
        }
        let d: u64 = (cv - '0' as u32) as u64;
        let next: u64 = acc * 10 + d;
        assert(prefix.take(i + 1).drop_last() =~= prefix.take(i as int));
        assert(prefix.take(i + 1).last() == prefix[i as int]);
        if next > u32::MAX as u64 {
            proof {
                if all_digits(prefix) {
                    assert forall|k: int| 0 <= k < prefix.len() implies digit_val(
                        #[trigger] prefix[k],
                    ) >= 0 by {
                        assert(is_digit(prefix[k]));
                    }
                    lemma_digits_value_monotone(prefix, i + 1, prefix.len() as int);
                    assert(prefix.take(prefix.len() as int) =~= prefix);
                }
            }
            return 0;
        }
        acc = next;
        i = i + 1;
    }
    assert(prefix.take(p as int) =~= prefix);
    assert(all_digits(prefix));
    acc as u32
}

/// Parses a whole string of digits as a `u64`, exactly as
/// `parse_u64_or_zero` describes.
pub fn parse_u64_digits(s: &str) -> (k: u64)
    ensures
        k == parse_u64_or_zero(s@),
{
    let n = s.unicode_len();
    if n == 0 {
        return 0;
    }
    let mut acc: u64 = 0;
    let mut i: usize = 0;
    while i < n
        invariant
            0 <= i <= n,
            n == s@.len(),
            n > 0,
            forall|k: int| 0 <= k < i ==> is_digit(#[trigger] s@[k]),
            acc == digits_value(s@.take(i as int)),
        decreases n - i,
    {
        let c = s.get_char(i);
        let cv = c as u32;
        if cv < '0' as u32 || cv > '9' as u32 {
            assert(!is_digit(s@[i as int]));
            assert(!all_digits(s@));
            return 0;
        }
        let d: u32 = cv - '0' as u32;
        assert(s@.take(i + 1).drop_last() =~= s@.take(i as int));
        assert(s@.take(i + 1).last() == s@[i as int]);
        if acc > (u64::MAX - d as u64) / 10 {
            proof {
                lemma_digits_value_nonneg(s@.take(i as int));
                assert(acc * 10 + d > u64::MAX) by (nonlinear_arith)
                    requires
                        acc > (u64::MAX - d as u64) / 10,
                        0 <= d <= 9,
                        acc >= 0,
                ;
                if all_digits(s@) {
                    assert forall|k: int| 0 <= k < s@.len() implies digit_val(
                        #[trigger] s@[k],
                    ) >= 0 by {
                        assert(is_digit(s@[k]));
                    }
                    lemma_digits_value_monotone(s@, i + 1, s@.len() as int);
                    assert(s@.take(s@.len() as int) =~= s@);
                }
            }
            return 0;
        }
        proof {
            assert(acc * 10 + d <= u64::MAX) by (nonlinear_arith)
                requires
                    acc <= (u64::MAX - d as u64) / 10,
                    0 <= d <= 9,
                    acc >= 0,
            ;
        }
        acc = acc * 10 + d as u64;
        i = i + 1;
    }
    assert(s@.take(n as int) =~= s@);
    assert(all_digits(s@));
    acc
}

/// Lexicographic "less than or equal" on character sequences. Because of
/// how UTF-8 nests code points, this order agrees with the byte-wise order
/// that strings compare with at run time.
pub open spec fn lex_le(a: Seq<char>, b: Seq<char>) -> bool
    decreases a.len(),
{
    if a.len() == 0 {
        true
    } else if b.len() == 0 {
        false
    } else if a[0] != b[0] {
        (a[0] as int) < (b[0] as int)
    } else {
        lex_le(a.drop_first(), b.drop_first())
    }
}

/// Any two strings are comparable.
pub proof fn lemma_lex_le_total(a: Seq<char>, b: Seq<char>)
    ensures
        lex_le(a, b) || lex_le(b, a),
    decreases a.len(),
{
    if a.len() > 0 && b.len() > 0 {
        if a[0] == b[0] {
            lemma_lex_le_total(a.drop_first(), b.drop_first());
        } else {
            assert((a[0] as int) != (b[0] as int));
        }
    }
}

/// The order is transitive.
pub proof fn lemma_lex_le_trans(a: Seq<char>, b: Seq<char>, c: Seq<char>)
    requires
        lex_le(a, b),
        lex_le(b, c),
    ensures
        lex_le(a, c),
    decreases a.len(),
{
    if a.len() > 0 && b.len() > 0 && c.len() > 0 && a[0] == b[0] && b[0] == c[0] {
        lemma_lex_le_trans(a.drop_first(), b.drop_first(), c.drop_first());
    }
}

/// Compares two strings in the lexicographic order of `lex_le`.
pub fn str_lex_le(a: &str, b: &str) -> (r: bool)
    ensures
        r == lex_le(a@, b@),
{
    let na = a.unicode_len();
    let nb = b.unicode_len();
    let mut i: usize = 0;
    proof {
        assert(a@.skip(0) =~= a@);
        assert(b@.skip(0) =~= b@);
    }
    loop
        invariant
            0 <= i <= na,
            i <= nb,
            na == a@.len(),
            nb == b@.len(),
            lex_le(a@, b@) == lex_le(a@.skip(i as int), b@.skip(i as int)),
            lex_le(b@, a@) == lex_le(b@.skip(i as int), a@.skip(i as int)),
        ensures
            lex_le(a@, b@) == (if i >= na {
                true
            } else if i >= nb {
                false
            } else {
                (a@[i as int] as int) < (b@[i as int] as int)
            }),
        decreases na - i,
    {
        if i >= na {
            break;
        }
        if i >= nb {
            break;
        }
        let ca = a.get_char(i);
        let cb = b.get_char(i);
        if ca != cb {
            assert(a@.skip(i as int)[0] == a@[i as int]);
            assert(b@.skip(i as int)[0] == b@[i as int]);
            break;
        }
        proof {
            assert(a@.skip(i as int).drop_first() =~= a@.skip(i + 1));
            assert(b@.skip(i as int).drop_first() =~= b@.skip(i + 1));
            assert(a@.skip(i as int)[0] == a@[i as int]);
            assert(b@.skip(i as int)[0] == b@[i as int]);
        }
        i = i + 1;
    }
    if i >= na {
        true
    } else if i >= nb {
        false
    } else {
        let ca = a.get_char(i);
        let cb = b.get_char(i);
        (ca as u32) < (cb as u32)
    }
}

} // verus!
