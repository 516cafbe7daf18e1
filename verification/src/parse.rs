//! Parsing of positional task ids.
//!
//! The view layer tags each rendered task with an element id of the form
//! `task_{index}` and recovers the index from that tag when a task is checked
//! off or deleted: it takes the piece after the last underscore and reads it
//! as a decimal number. These functions do that reading with a full contract,
//! and report failure as `None` instead of crashing on a malformed tag.

use vstd::prelude::*;

verus! {

/// A decimal digit.
pub open spec fn is_dec_digit(c: char) -> bool {
    '0' <= c && c <= '9'
}

/// The numeric value of a decimal digit.
pub open spec fn dec_digit_value(c: char) -> int {
    c as int - '0' as int
}

/// Every character of `s` is a decimal digit.
pub open spec fn all_dec_digits(s: Seq<char>) -> bool {
    forall|i: int| 0 <= i < s.len() ==> is_dec_digit(#[trigger] s[i])
}

/// The number a digit string denotes, most significant digit first. Leading
/// zeros are allowed and carry no weight.
pub open spec fn dec_value(s: Seq<char>) -> int
    decreases s.len(),
{
    if s.len() == 0 {
        0
    } else {
        dec_value(s.drop_last()) * 10 + dec_digit_value(s.last())
    }
}

/// The characters after the last occurrence of `sep` in `s`; all of `s` when
/// `sep` does not occur.
pub open spec fn tail_after_last(s: Seq<char>, sep: char) -> Seq<char>
    decreases s.len(),
{
    if s.len() == 0 {
        s
    } else if s.last() == sep {
        Seq::empty()
    } else {
        tail_after_last(s.drop_last(), sep).push(s.last())
    }
}

/// Reading one more digit multiplies the value so far by ten and adds it.
proof fn lemma_dec_value_step(s: Seq<char>, k: int)
    requires
        0 <= k < s.len(),
    ensures
        dec_value(s.subrange(0, k + 1)) == dec_value(s.subrange(0, k)) * 10 + dec_digit_value(
            s[k],
        ),
{
    assert(s.subrange(0, k + 1).drop_last() =~= s.subrange(0, k));
    assert(s.subrange(0, k + 1).last() == s[k]);
}

/// The value of a digit string never falls below the value of any prefix.
proof fn lemma_dec_value_prefix_le(s: Seq<char>, k: int)
    requires
        0 <= k <= s.len(),
        all_dec_digits(s),
    ensures
        dec_value(s.subrange(0, k)) <= dec_value(s),
    decreases s.len() - k,
{
    if k == s.len() {
        assert(s.subrange(0, k) =~= s);
    } else {
        lemma_dec_value_step(s, k);
        assert(dec_digit_value(s[k]) >= 0);
        assert(dec_value(s.subrange(0, k)) >= 0) by {
            lemma_dec_value_nonneg(s.subrange(0, k));
        }
        lemma_dec_value_prefix_le(s, k + 1);
    }
}

/// A digit string denotes a number, never a negative value.
proof fn lemma_dec_value_nonneg(s: Seq<char>)
    requires
        all_dec_digits(s),
    ensures
        dec_value(s) >= 0,
    decreases s.len(),
{
    if s.len() > 0 {
        assert(all_dec_digits(s.drop_last())) by {
            assert(forall|i: int|
                0 <= i < s.drop_last().len() ==> #[trigger] s.drop_last()[i] == s[i]);
        }
        lemma_dec_value_nonneg(s.drop_last());
        assert(is_dec_digit(s.last()));
    }
}

/// When `sep` occurs nowhere in `s`, the tail after it is `s` itself.
proof fn lemma_tail_after_last_none(s: Seq<char>, sep: char)
    requires
        forall|j: int| 0 <= j < s.len() ==> #[trigger] s[j] != sep,
    ensures
        tail_after_last(s, sep) == s,
    decreases s.len(),
{
    if s.len() > 0 {
        assert(forall|j: int|
            0 <= j < s.drop_last().len() ==> #[trigger] s.drop_last()[j] == s[j]);
        lemma_tail_after_last_none(s.drop_last(), sep);
        assert(s.drop_last().push(s.last()) =~= s);
    }
}

/// When the last occurrence of `sep` stands at `k`, the tail after it is the
/// piece from `k + 1` to the end.
proof fn lemma_tail_after_last_at(s: Seq<char>, sep: char, k: int)
    requires
        0 <= k < s.len(),
        s[k] == sep,
        forall|j: int| k < j < s.len() ==> #[trigger] s[j] != sep,
    ensures
        tail_after_last(s, sep) == s.subrange(k + 1, s.len() as int),
    decreases s.len(),
{
    if k == s.len() - 1 {
        assert(s.last() == sep);
        assert(s.subrange(k + 1, s.len() as int) =~= Seq::<char>::empty());
    } else {
        assert(s.last() != sep);
        assert(forall|j: int|
            0 <= j < s.drop_last().len() ==> #[trigger] s.drop_last()[j] == s[j]);
        lemma_tail_after_last_at(s.drop_last(), sep, k);
        assert(s.drop_last().subrange(k + 1, s.drop_last().len() as int).push(s.last()) =~= s
            .subrange(k + 1, s.len() as int));
    }
}

/// Reads `s` as a nonnegative decimal number. `Some` exactly when `s` is
/// nonempty, every character is a decimal digit, and the denoted value fits
/// in `usize`; `None` otherwise — a malformed or oversized number is an
/// ordinary failure, never a crash.
pub fn parse_usize(s: &str) -> (r: Option<usize>)
    ensures
        r is Some <==> s@.len() > 0 && all_dec_digits(s@) && dec_value(s@) <= usize::MAX,
        r is Some ==> r == Some(dec_value(s@) as usize),
{
    let n = s.unicode_len();
    if n == 0 {
        return None;
    }
    let mut val: usize = 0;
    let mut i: usize = 0;
    while i < n
        invariant
            n == s@.len(),
            i <= n,
            all_dec_digits(s@.subrange(0, i as int)),
            val == dec_value(s@.subrange(0, i as int)),
        decreases n - i,
    {
        let c = s.get_char(i);
        if c < '0' || c > '9' {
            assert(!is_dec_digit(s@[i as int]));
            return None;
        }
        let d = (c as u32 - '0' as u32) as usize;
        assert(d == dec_digit_value(s@[i as int]) && d <= 9);
        let limit = (usize::MAX - d) / 10;
        if val > limit {
            proof {
                lemma_dec_value_step(s@, i as int);
                assert((usize::MAX - d) / 10 * 10 + (usize::MAX - d) % 10 == usize::MAX - d);
                assert(val * 10 >= (limit + 1) * 10);
                assert(dec_value(s@.subrange(0, i + 1)) > usize::MAX);
                assert(all_dec_digits(s@.subrange(0, i + 1))) by {
                    assert(forall|j: int|
                        0 <= j < i + 1 ==> #[trigger] s@.subrange(0, i + 1)[j] == s@[j]);
                }
                if all_dec_digits(s@) {
                    assert(forall|j: int| 0 <= j < s@.len() ==> is_dec_digit(#[trigger] s@[j]));
                    lemma_dec_value_prefix_le(s@, i + 1);
                    assert(dec_value(s@) > usize::MAX);
                }
            }
            return None;
        }
        proof {
            lemma_dec_value_step(s@, i as int);
            assert((usize::MAX - d) / 10 * 10 + (usize::MAX - d) % 10 == usize::MAX - d);
            assert(val * 10 <= limit * 10);
            assert(forall|j: int|
                0 <= j < i + 1 ==> #[trigger] s@.subrange(0, i + 1)[j] == s@[j]);
        }
        val = val * 10 + d;
        i += 1;
    }
    proof {
        assert(s@.subrange(0, n as int) =~= s@);
    }
    Some(val)
}

/// Recovers a positional task id from an element tag of the form
/// `task_{index}`: the piece after the last underscore — all of the tag when
/// no underscore occurs — read as a decimal number. `None` when that piece is
/// empty, holds a non-digit, or denotes a value too large for `usize`.
pub fn parse_task_index(id_attr: &str) -> (r: Option<usize>)
    ensures
        r is Some <==> {
            let t = tail_after_last(id_attr@, '_');
            t.len() > 0 && all_dec_digits(t) && dec_value(t) <= usize::MAX
        },
        r is Some ==> r == Some(dec_value(tail_after_last(id_attr@, '_')) as usize),
{
    let n = id_attr.unicode_len();
    let mut i: usize = n;
    let mut have = false;
    let mut start: usize = 0;
    while i > 0 && !have
        invariant
            n == id_attr@.len(),
            i <= n,
            !have ==> forall|j: int| i <= j < n ==> #[trigger] id_attr@[j] != '_',
            have ==> 1 <= start <= n && id_attr@[start - 1] == '_' && forall|j: int|
                start <= j < n ==> #[trigger] id_attr@[j] != '_',
        decreases i,
    {
        i -= 1;
        let c = id_attr.get_char(i);
        if c == '_' {
            have = true;
            start = i + 1;
        }
    }
    let suffix = if have {
        id_attr.substring_char(start, n)
    } else {
        id_attr
    };
    proof {
        if have {
            lemma_tail_after_last_at(id_attr@, '_', start - 1);
        } else {
            lemma_tail_after_last_none(id_attr@, '_');
        }
        assert(suffix@ == tail_after_last(id_attr@, '_'));
    }
    parse_usize(suffix)
}

} // verus!
