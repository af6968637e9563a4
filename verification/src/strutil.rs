use vstd::prelude::*;
use vstd::string::StrSliceExecFns;

verus! {

/// Character-by-character equality of two string slices.
pub fn str_eq(a: &str, b: &str) -> (r: bool)
    ensures
        r == (a@ == b@),
{
    let la = a.unicode_len();
    let lb = b.unicode_len();
    if la != lb {
        return false;
    }
    let mut i: usize = 0;
    while i < la
        invariant
            la == a@.len(),
            lb == b@.len(),
            la == lb,
            i <= la,
            forall|j: int| 0 <= j < i ==> a@[j] == b@[j],
        decreases la - i,
    {
        if a.get_char(i) != b.get_char(i) {
            return false;
        }
        i += 1;
    }
    proof {
        assert(a@ =~= b@);
    }
    true
}

pub open spec fn is_digit(c: char) -> bool {
    48 <= c as int <= 57
}

pub open spec fn digit_val(c: char) -> int {
    c as int - 48
}

pub open spec fn all_digits(s: Seq<char>) -> bool {
    forall|j: int| 0 <= j < s.len() ==> is_digit(#[trigger] s[j])
}

/// Numeric value of a string of decimal digits, most significant first.
pub open spec fn digits_val(s: Seq<char>) -> int
    decreases s.len(),
{
    if s.len() == 0 {
        0
    } else {
        digits_val(s.drop_last()) * 10 + digit_val(s.last())
    }
}

pub proof fn lemma_digits_val_nonneg(s: Seq<char>)
    requires
        all_digits(s),
    ensures
        digits_val(s) >= 0,
    decreases s.len(),
{
    if s.len() > 0 {
        assert(all_digits(s.drop_last()));
        lemma_digits_val_nonneg(s.drop_last());
    }
}

/// A digit string's value never shrinks when more digits follow.
pub proof fn lemma_digits_val_prefix_le(s: Seq<char>, i: int)
    requires
        0 <= i <= s.len(),
        all_digits(s),
    ensures
        digits_val(s.take(i)) <= digits_val(s),
    decreases s.len() - i,
{
    if i == s.len() {
        assert(s.take(i) =~= s);
    } else {
        assert(s.take(i + 1).drop_last() =~= s.take(i));
        assert(s.take(i + 1).last() == s[i]);
        assert(all_digits(s.take(i)));
        lemma_digits_val_nonneg(s.take(i));
        assert(digits_val(s.take(i + 1)) == digits_val(s.take(i)) * 10 + digit_val(s[i]));
        assert(digits_val(s.take(i + 1)) >= digits_val(s.take(i)));
        lemma_digits_val_prefix_le(s, i + 1);
    }
}

/// What parsing an unsigned eight-bit integer from text accepts: an optional
/// leading plus sign, then one or more decimal digits, with a value of at
/// most 255. Anything else is rejected.
pub open spec fn parse_u8_spec(s: Seq<char>) -> Option<u8> {
    let body = if s.len() > 0 && s[0] == '+' {
        s.drop_first()
    } else {
        s
    };
    if body.len() > 0 && all_digits(body) && digits_val(body) <= 255 {
        Some(digits_val(body) as u8)
    } else {
        None
    }
}

/// Parse a non-negative integer as `str::parse::<u8>` does.
pub fn parse_u8(s: &str) -> (r: Option<u8>)
    ensures
        r == parse_u8_spec(s@),
{
    let len = s.unicode_len();
    if len == 0 {
        return None;
    }
    let first = s.get_char(0);
    let start: usize = if first == '+' {
        1
    } else {
        0
    };
    let ghost body: Seq<char> = s@.subrange(start as int, len as int);
    proof {
        if start == 1 {
            assert(body =~= s@.drop_first());
        } else {
            assert(body =~= s@);
        }
    }
    if start == len {
        return None;
    }
    let mut acc: u32 = 0;
    let mut i: usize = start;
    while i < len
        invariant
            start <= i <= len,
            len == s@.len(),
            start < len,
            start <= 1,
            (start == 1) <==> (s@.len() > 0 && s@[0] == '+'),
            body == s@.subrange(start as int, len as int),
            (start == 1) ==> body == s@.drop_first(),
            (start == 0) ==> body == s@,
            all_digits(body.take(i - start)),
            acc == digits_val(body.take(i - start)),
            acc <= 255,
        decreases len - i,
    {
        let c = s.get_char(i);
        let u = c as u32;
        let ghost k: int = i - start;
        proof {
            assert(body[k] == s@[i as int]);
            assert(body.take(k + 1).drop_last() =~= body.take(k));
            assert(body.take(k + 1).last() == body[k]);
        }
        if u < 48 || u > 57 {
            proof {
                assert(!is_digit(body[k]));
                assert(!all_digits(body));
            }
            return None;
        }
        let d = u - 48;
        if acc > 25 || (acc == 25 && d > 5) {
            proof {
                assert(digits_val(body.take(k + 1)) == acc * 10 + d);
                assert(digits_val(body.take(k + 1)) > 255);
                if all_digits(body) {
                    lemma_digits_val_prefix_le(body, k + 1);
                    assert(digits_val(body) > 255);
                }
            }
            return None;
        }
        acc = acc * 10 + d;
        i += 1;
    }
    proof {
        assert(body.take(len - start) =~= body);
    }
    Some(acc as u8)
}

/// The text after the last separator dot; the whole string when it has no
/// dot, and empty when it ends in one.
pub open spec fn suffix_after_last_dot(s: Seq<char>) -> Seq<char>
    decreases s.len(),
{
    if s.len() == 0 {
        s
    } else if s.last() == '.' {
        Seq::empty()
    } else {
        suffix_after_last_dot(s.drop_last()).push(s.last())
    }
}

proof fn lemma_suffix_no_dot_tail(s: Seq<char>, i: int)
    requires
        0 <= i <= s.len(),
        forall|j: int| i <= j < s.len() ==> s[j] != '.',
        i == 0 || s[i - 1] == '.',
    ensures
        suffix_after_last_dot(s) == s.subrange(i, s.len() as int),
    decreases s.len() - i,
{
    if s.len() == i {
        if i == 0 {
            assert(s.subrange(0, 0) =~= s);
        } else {
            assert(suffix_after_last_dot(s) == Seq::<char>::empty());
            assert(s.subrange(i, i as int) =~= Seq::<char>::empty());
        }
    } else {
        assert(s.last() == s[s.len() - 1]);
        assert(s.last() != '.');
        let t = s.drop_last();
        assert(forall|j: int| i <= j < t.len() ==> t[j] != '.');
        lemma_suffix_no_dot_tail(t, i);
        assert(suffix_after_last_dot(s) == t.subrange(i, t.len() as int).push(s.last()));
        assert(t.subrange(i, t.len() as int).push(s.last()) =~= s.subrange(i, s.len() as int));
    }
}

/// The instance-size suffix of an instance-class label: the text after the
/// last dot.
pub fn instance_size_suffix(s: &str) -> (r: &str)
    ensures
        r@ == suffix_after_last_dot(s@),
{
    let len = s.unicode_len();
    let mut i: usize = len;
    while i > 0
        invariant
            0 <= i <= len,
            len == s@.len(),
            forall|j: int| i <= j < len ==> s@[j] != '.',
        decreases i,
    {
        if s.get_char(i - 1) == '.' {
            proof {
                lemma_suffix_no_dot_tail(s@, i as int);
            }
            return s.substring_char(i, len);
        }
        i -= 1;
    }
    proof {
        lemma_suffix_no_dot_tail(s@, 0);
        assert(s@.subrange(0, len as int) =~= s@);
    }
    s
}

} // verus!
