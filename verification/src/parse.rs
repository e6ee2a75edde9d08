//! Decimal parsing of query parameters, with the documented silent
//! defaults: an unparseable `page` or `year` falls back to 0, an
//! unparseable `page_size` to 10.

use vstd::prelude::*;

use crate::query::{opt_seq, SearchQuery};

verus! {

/// An ASCII decimal digit.
pub open spec fn is_digit(c: char) -> bool {
    '0' as int <= c as int && c as int <= '9' as int
}

/// The numeric value of an ASCII decimal digit.
pub open spec fn digit_val(c: char) -> int {
    c as int - '0' as int
}

/// Every character of `s` is an ASCII decimal digit.
pub open spec fn all_digits(s: Seq<char>) -> bool {
    forall|i: int| 0 <= i < s.len() ==> is_digit(#[trigger] s[i])
}

/// The value of a digit string read in base 10.
pub open spec fn dec_val(s: Seq<char>) -> int
    decreases s.len(),
{
    if s.len() == 0 {
        0
    } else {
        dec_val(s.drop_last()) * 10 + digit_val(s.last())
    }
}

/// The digits of an unsigned decimal literal: an optional leading
/// `+` is skipped.
pub open spec fn unsigned_digits(s: Seq<char>) -> Seq<char> {
    if s.len() > 0 && s[0] == '+' {
        s.drop_first()
    } else {
        s
    }
}

/// `s` is a well-formed unsigned decimal whose value fits in `usize`.
pub open spec fn parses_as_usize(s: Seq<char>) -> bool {
    let d = unsigned_digits(s);
    d.len() > 0 && all_digits(d) && dec_val(d) <= usize::MAX
}

/// The digits of a signed decimal literal: an optional leading sign
/// is skipped.
pub open spec fn signed_digits(s: Seq<char>) -> Seq<char> {
    if s.len() > 0 && (s[0] == '+' || s[0] == '-') {
        s.drop_first()
    } else {
        s
    }
}

/// The sign denoted by a signed decimal literal.
pub open spec fn sign_of(s: Seq<char>) -> int {
    if s.len() > 0 && s[0] == '-' {
        -1
    } else {
        1
    }
}

/// `s` is a well-formed signed decimal whose value fits in `i32`.
pub open spec fn parses_as_i32(s: Seq<char>) -> bool {
    let d = signed_digits(s);
    d.len() > 0 && all_digits(d) && i32::MIN <= sign_of(s) * dec_val(d) && sign_of(s) * dec_val(d)
        <= i32::MAX
}

/// The value denoted by a signed decimal literal.
pub open spec fn i32_value(s: Seq<char>) -> int {
    sign_of(s) * dec_val(signed_digits(s))
}

/// A digit string's value is never negative.
proof fn lemma_dec_val_nonneg(s: Seq<char>)
    requires
        all_digits(s),
    ensures
        dec_val(s) >= 0,
    decreases s.len(),
{
    if s.len() > 0 {
        assert(all_digits(s.drop_last())) by {
            assert(forall|i: int|
                0 <= i < s.len() - 1 ==> #[trigger] s.drop_last()[i] == s[i] && is_digit(s[i]));
        }
        lemma_dec_val_nonneg(s.drop_last());
        assert(is_digit(s.last()));
    }
}

/// A prefix of a digit string never exceeds the whole string's value.
proof fn lemma_dec_val_prefix_le(s: Seq<char>, j: int)
    requires
        all_digits(s),
        0 <= j <= s.len(),
    ensures
        dec_val(s.take(j)) <= dec_val(s),
    decreases s.len(),
{
    if j == s.len() {
        assert(s.take(j) =~= s);
    } else {
        assert(all_digits(s.drop_last())) by {
            assert(forall|i: int|
                0 <= i < s.len() - 1 ==> #[trigger] s.drop_last()[i] == s[i] && is_digit(s[i]));
        }
        lemma_dec_val_prefix_le(s.drop_last(), j);
        assert(s.drop_last().take(j) =~= s.take(j));
        lemma_dec_val_nonneg(s.drop_last());
        assert(is_digit(s.last()));
    }
}

/// Parses an unsigned decimal with an optional leading `+`, exactly
/// when the value fits in `usize`.
pub fn parse_usize(s: &str) -> (r: Option<usize>)
    ensures
        parses_as_usize(s@) ==> r is Some && r->0 == dec_val(unsigned_digits(s@)),
        !parses_as_usize(s@) ==> r is None,
{
    let n = s.unicode_len();
    if n == 0 {
        return None;
    }
    let c0 = s.get_char(0);
    let start: usize = if c0 == '+' {
        1
    } else {
        0
    };
    let ghost d = unsigned_digits(s@);
    proof {
        assert(d =~= s@.subrange(start as int, n as int));
    }
    if start == n {
        return None;
    }
    let mut val: usize = 0;
    let mut i: usize = start;
    while i < n
        invariant
            n == s@.len(),
            start <= i <= n,
            start < n,
            d == unsigned_digits(s@),
            d =~= s@.subrange(start as int, n as int),
            d.len() == n - start,
            all_digits(d.take(i - start)),
            val == dec_val(d.take(i - start)),
        decreases n - i,
    {
        let ghost k = i - start;
        let c = s.get_char(i);
        let cu = c as u32;
        proof {
            assert(d[k] == s@[i as int]);
        }
        if cu < 48 || cu > 57 {
            proof {
                assert(!is_digit(d[k]));
                assert(!all_digits(d));
            }
            return None;
        }
        let digit = (cu - 48) as usize;
        proof {
            assert(is_digit(d[k]));
            assert(digit == digit_val(d[k]));
            assert(d.take(k + 1).drop_last() =~= d.take(k));
            assert(d.take(k + 1).last() == d[k]);
            assert(dec_val(d.take(k + 1)) == dec_val(d.take(k)) * 10 + digit_val(d[k]));
            assert(all_digits(d.take(k + 1))) by {
                assert(forall|j: int|
                    0 <= j < k + 1 ==> #[trigger] d.take(k + 1)[j] == d[j]);
                assert(forall|j: int|
                    0 <= j < k ==> #[trigger] d[j] == d.take(k)[j] && is_digit(d.take(k)[j]));
            }
        }
        let next = match val.checked_mul(10) {
            Some(v10) => v10.checked_add(digit),
            None => None,
        };
        match next {
            Some(v) => {
                val = v;
            },
            None => {
                proof {
                    assert(dec_val(d.take(k + 1)) > usize::MAX);
                    if all_digits(d) {
                        lemma_dec_val_prefix_le(d, k + 1);
                    }
                    assert(!parses_as_usize(s@));
                }
                return None;
            },
        }
        i += 1;
    }
    proof {
        assert(d.take(n - start) =~= d);
    }
    Some(val)
}

/// Parses a signed decimal with an optional leading sign, exactly
/// when the value fits in `i32`.
pub fn parse_i32(s: &str) -> (r: Option<i32>)
    ensures
        parses_as_i32(s@) ==> r is Some && r->0 == i32_value(s@),
        !parses_as_i32(s@) ==> r is None,
{
    let n = s.unicode_len();
    if n == 0 {
        return None;
    }
    let c0 = s.get_char(0);
    let neg = c0 == '-';
    let start: usize = if c0 == '+' || c0 == '-' {
        1
    } else {
        0
    };
    let ghost d = signed_digits(s@);
    proof {
        assert(d =~= s@.subrange(start as int, n as int));
    }
    if start == n {
        return None;
    }
    let mut mag: u64 = 0;
    let mut i: usize = start;
    while i < n
        invariant
            n == s@.len(),
            start <= i <= n,
            start < n,
            d == signed_digits(s@),
            d =~= s@.subrange(start as int, n as int),
            d.len() == n - start,
            all_digits(d.take(i - start)),
            mag == dec_val(d.take(i - start)),
        decreases n - i,
    {
        let ghost k = i - start;
        let c = s.get_char(i);
        let cu = c as u32;
        proof {
            assert(d[k] == s@[i as int]);
        }
        if cu < 48 || cu > 57 {
            proof {
                assert(!is_digit(d[k]));
                assert(!all_digits(d));
            }
            return None;
        }
        let digit = (cu - 48) as u64;
        proof {
            assert(is_digit(d[k]));
            assert(digit == digit_val(d[k]));
            assert(d.take(k + 1).drop_last() =~= d.take(k));
            assert(d.take(k + 1).last() == d[k]);
            assert(dec_val(d.take(k + 1)) == dec_val(d.take(k)) * 10 + digit_val(d[k]));
            assert(all_digits(d.take(k + 1))) by {
                assert(forall|j: int|
                    0 <= j < k + 1 ==> #[trigger] d.take(k + 1)[j] == d[j]);
                assert(forall|j: int|
                    0 <= j < k ==> #[trigger] d[j] == d.take(k)[j] && is_digit(d.take(k)[j]));
            }
        }
        let next = match mag.checked_mul(10) {
            Some(v10) => v10.checked_add(digit),
            None => None,
        };
        match next {
            Some(v) => {
                mag = v;
            },
            None => {
                proof {
                    assert(dec_val(d.take(k + 1)) > u64::MAX);
                    if all_digits(d) {
                        lemma_dec_val_prefix_le(d, k + 1);
                    }
                    assert(!parses_as_i32(s@));
                }
                return None;
            },
        }
        i += 1;
    }
    proof {
        assert(d.take(n - start) =~= d);
    }
    if neg {
        if mag > 2147483648u64 {
            return None;
        }
        if mag == 2147483648u64 {
            return Some(i32::MIN);
        }
        Some(-(mag as i32))
    } else {
        if mag > 2147483647u64 {
            return None;
        }
        Some(mag as i32)
    }
}

/// The page index denoted by an optional raw parameter: the parsed
/// value, or 0 when the parameter is absent or unparseable.
pub open spec fn page_of(p: Option<Seq<char>>) -> int {
    match p {
        Some(s) => if parses_as_usize(s) {
            dec_val(unsigned_digits(s))
        } else {
            0
        },
        None => 0,
    }
}

/// The page size denoted by an optional raw parameter: the parsed
/// value, or 10 when the parameter is absent or unparseable.
pub open spec fn page_size_of(p: Option<Seq<char>>) -> int {
    match p {
        Some(s) => if parses_as_usize(s) {
            dec_val(unsigned_digits(s))
        } else {
            10
        },
        None => 10,
    }
}

/// The year filter denoted by an optional raw parameter: the parsed
/// value, or the "no filter" sentinel 0 when the parameter is absent
/// or unparseable.
pub open spec fn year_of(p: Option<Seq<char>>) -> int {
    match p {
        Some(s) => if parses_as_i32(s) {
            i32_value(s)
        } else {
            0
        },
        None => 0,
    }
}

/// Parses the `page` parameter with its default.
pub fn parse_page(page: &Option<String>) -> (r: usize)
    ensures
        r == page_of(opt_seq(*page)),
{
    match page {
        Some(s) => match parse_usize(s.as_str()) {
            Some(v) => v,
            None => 0,
        },
        None => 0,
    }
}

/// Parses the `page_size` parameter with its default.
pub fn parse_page_size(page_size: &Option<String>) -> (r: usize)
    ensures
        r == page_size_of(opt_seq(*page_size)),
{
    match page_size {
        Some(s) => match parse_usize(s.as_str()) {
            Some(v) => v,
            None => 10,
        },
        None => 10,
    }
}

/// Parses the `year` parameter with its default.
pub fn parse_year(year: &Option<String>) -> (r: i32)
    ensures
        r == year_of(opt_seq(*year)),
{
    match year {
        Some(s) => match parse_i32(s.as_str()) {
            Some(v) => v,
            None => 0,
        },
        None => 0,
    }
}

/// Assembles a query from the raw request parameters: text filters
/// are taken as they arrived, numeric parameters are parsed with the
/// documented defaults.
pub fn parse_query(
    title_contains: Option<String>,
    year: Option<String>,
    cast: Option<String>,
    genre: Option<String>,
    page: Option<String>,
    page_size: Option<String>,
) -> (q: SearchQuery)
    ensures
        q@.title_contains == opt_seq(title_contains),
        q@.cast == opt_seq(cast),
        q@.genre == opt_seq(genre),
        q@.year == year_of(opt_seq(year)),
        q@.page == page_of(opt_seq(page)),
        q@.page_size == page_size_of(opt_seq(page_size)),
{
    let year_val = parse_year(&year);
    let page_val = parse_page(&page);
    let page_size_val = parse_page_size(&page_size);
    SearchQuery {
        title_contains,
        year: year_val,
        cast,
        genre,
        page: page_val,
        page_size: page_size_val,
    }
}

} // verus!
