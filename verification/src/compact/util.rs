//! Small helpers shared by the compact models.

use vstd::prelude::*;

use crate::json::{chars_of, Json, JsonV};

verus! {

/// Read a string field from a JSON object.
pub fn get_str<'a>(v: &'a Json, key: &str) -> (r: Option<&'a String>)
    ensures
        match r {
            Some(s) => v@.get_str(key@) == Some(s@),
            None => v@.get_str(key@) is None,
        },
{
    v.get_str(key)
}

/// Whether a JSON value counts as defined: present and not null.
pub fn is_defined(v: Option<&Json>) -> (r: bool)
    ensures
        r == (v matches Some(x) && !(x@ is Null)),
{
    match v {
        Some(x) => !x.is_null(),
        None => false,
    }
}

/// The index where the mantissa of a number's text ends: the first `e` or
/// `E`, or the end.
pub open spec fn mantissa_end(t: Seq<char>) -> int
    decreases t.len(),
{
    if t.len() == 0 {
        0
    } else if mantissa_end(t.drop_last()) < t.len() - 1 {
        mantissa_end(t.drop_last())
    } else if t.last() == 'e' || t.last() == 'E' {
        t.len() - 1
    } else {
        t.len() as int
    }
}

/// A number's text denotes a value other than zero when a digit from 1 to 9
/// stands in its mantissa.
pub open spec fn spec_num_nonzero(t: Seq<char>) -> bool {
    exists|i: int| 0 <= i < mantissa_end(t) && '1' <= #[trigger] t[i] <= '9'
}

/// Whether a number's text denotes a value other than zero.
pub fn num_nonzero(t: &str) -> (r: bool)
    ensures
        r == spec_num_nonzero(t@),
{
    let cs = chars_of(t);
    let mut i: usize = 0;
    proof {
        lemma_mantissa_end(cs@);
    }
    while i < cs.len()
        invariant
            0 <= i <= cs@.len(),
            cs@ == t@,
            mantissa_end(cs@) <= cs@.len(),
            i <= mantissa_end(cs@),
            forall|j: int| 0 <= j < i ==> cs@[j] != 'e' && cs@[j] != 'E',
            forall|j: int| 0 <= j < i ==> !('1' <= #[trigger] cs@[j] <= '9'),
        decreases cs@.len() - i,
    {
        let c = cs[i];
        if c == 'e' || c == 'E' {
            assert(mantissa_end(cs@) == i) by {
                lemma_mantissa_end_first(cs@, i as int);
            }
            return false;
        }
        if '1' <= c && c <= '9' {
            proof {
                lemma_mantissa_end_first_gt(cs@, (i + 1) as int);
            }
            return true;
        }
        proof {
            lemma_mantissa_end_first_gt(cs@, (i + 1) as int);
        }
        i += 1;
    }
    false
}

proof fn lemma_mantissa_end(t: Seq<char>)
    ensures
        0 <= mantissa_end(t) <= t.len(),
        forall|j: int| 0 <= j < mantissa_end(t) ==> t[j] != 'e' && t[j] != 'E',
        mantissa_end(t) < t.len() ==> (t[mantissa_end(t)] == 'e' || t[mantissa_end(t)] == 'E'),
    decreases t.len(),
{
    if t.len() > 0 {
        lemma_mantissa_end(t.drop_last());
        assert(forall|j: int| 0 <= j < t.len() - 1 ==> t.drop_last()[j] == t[j]);
    }
}

/// The mantissa ends at the first `e` or `E`.
proof fn lemma_mantissa_end_first(t: Seq<char>, i: int)
    requires
        0 <= i < t.len(),
        t[i] == 'e' || t[i] == 'E',
        forall|j: int| 0 <= j < i ==> t[j] != 'e' && t[j] != 'E',
    ensures
        mantissa_end(t) == i,
{
    lemma_mantissa_end(t);
}

/// With no `e` or `E` before `i`, the mantissa reaches at least `i`.
proof fn lemma_mantissa_end_first_gt(t: Seq<char>, i: int)
    requires
        0 <= i <= t.len(),
        forall|j: int| 0 <= j < i ==> t[j] != 'e' && t[j] != 'E',
    ensures
        mantissa_end(t) >= i,
{
    lemma_mantissa_end(t);
}

/// JavaScript truthiness of a JSON value: null, false, zero and the empty
/// string are false; everything else is true.
pub open spec fn spec_truthy(v: JsonV) -> bool {
    match v {
        JsonV::Null => false,
        JsonV::Bool(b) => b,
        JsonV::Num(t) => spec_num_nonzero(t),
        JsonV::Str(s) => s.len() > 0,
        _ => true,
    }
}

/// JavaScript truthiness for the JSON values used here.
pub fn truthy(v: &Json) -> (r: bool)
    ensures
        r == spec_truthy(v@),
{
    match v {
        Json::Null => false,
        Json::Bool(b) => *b,
        Json::Num(t) => num_nonzero(t.as_str()),
        Json::Str(s) => s.as_str().unicode_len() > 0,
        _ => true,
    }
}

/// The value of a decimal digit string.
pub open spec fn digits_value(t: Seq<char>) -> int
    decreases t.len(),
{
    if t.len() == 0 {
        0
    } else {
        digits_value(t.drop_last()) * 10 + (t.last() as int - '0' as int)
    }
}

pub open spec fn all_digits(t: Seq<char>) -> bool {
    forall|i: int| 0 <= i < t.len() ==> '0' <= #[trigger] t[i] <= '9'
}

/// The integer a number's text denotes when the text is an optional sign
/// followed by digits.
pub open spec fn spec_int_value(t: Seq<char>) -> Option<int> {
    if t.len() > 0 && (t[0] == '-' || t[0] == '+') {
        let d = t.drop_first();
        if d.len() > 0 && all_digits(d) {
            if t[0] == '-' {
                Some(-digits_value(d))
            } else {
                Some(digits_value(d))
            }
        } else {
            None
        }
    } else if t.len() > 0 && all_digits(t) {
        Some(digits_value(t))
    } else {
        None
    }
}

/// The value of an integer number's text as an `i64`.
pub open spec fn spec_num_as_i64(t: Seq<char>) -> Option<int> {
    match spec_int_value(t) {
        Some(v) => if i64::MIN <= v <= i64::MAX {
            Some(v)
        } else {
            None
        },
        None => None,
    }
}

proof fn lemma_digits_value_mono(t: Seq<char>, k: int)
    requires
        all_digits(t),
        0 <= k <= t.len(),
    ensures
        digits_value(t.take(k)) <= digits_value(t),
        digits_value(t.take(k)) >= 0,
    decreases t.len(),
{
    if k < t.len() {
        assert(all_digits(t.drop_last()));
        assert(t.drop_last().take(k) =~= t.take(k));
        lemma_digits_value_mono(t.drop_last(), k);
        lemma_digits_value_nonneg(t.drop_last());
    } else {
        assert(t.take(k) =~= t);
        lemma_digits_value_nonneg(t);
    }
}

proof fn lemma_digits_value_nonneg(t: Seq<char>)
    requires
        all_digits(t),
    ensures
        digits_value(t) >= 0,
    decreases t.len(),
{
    if t.len() > 0 {
        assert(all_digits(t.drop_last()));
        lemma_digits_value_nonneg(t.drop_last());
    }
}

/// Reads the value of a number's text as an `i64`: an optional sign and
/// digits whose value fits; any other text gives `None`.
pub fn num_as_i64(t: &str) -> (r: Option<i64>)
    ensures
        match r {
            Some(v) => spec_num_as_i64(t@) == Some(v as int),
            None => spec_num_as_i64(t@) is None,
        },
{
    let cs = chars_of(t);
    let n = cs.len();
    if n == 0 {
        return None;
    }
    let neg = cs[0] == '-';
    let start: usize = if cs[0] == '-' || cs[0] == '+' {
        1
    } else {
        0
    };
    let ghost d = cs@.skip(start as int);
    if start == n {
        return None;
    }
    // Accumulate; stop as soon as the value leaves the i64 range.
    let mut acc: i128 = 0;
    let mut i: usize = start;
    let limit: i128 = 9223372036854775808;
    while i < n
        invariant
            start <= i <= n,
            n == cs@.len(),
            cs@ == t@,
            start == 0 || start == 1,
            start < n,
            d == cs@.skip(start as int),
            start == 1 ==> (cs@[0] == '-' || cs@[0] == '+'),
            start == 0 ==> !(cs@[0] == '-' || cs@[0] == '+'),
            neg == (cs@[0] == '-'),
            all_digits(cs@.subrange(start as int, i as int)),
            acc == digits_value(cs@.subrange(start as int, i as int)),
            0 <= acc <= limit,
            limit == 9223372036854775808,
        decreases n - i,
    {
        let c = cs[i];
        if !('0' <= c && c <= '9') {
            proof {
                assert(d[i - start] == c);
                if start == 1 {
                    assert(t@.drop_first() =~= d);
                } else {
                    assert(cs@ =~= d);
                }
            }
            return None;
        }
        proof {
            assert(cs@.subrange(start as int, i + 1).drop_last() =~= cs@.subrange(start as int, i as int));
        }
        let dv = (c as u32 - '0' as u32) as i128;
        acc = acc * 10 + dv;
        i += 1;
        if acc > limit {
            proof {
                assert(all_digits(cs@.subrange(start as int, i as int)));
            }
            // The rest can only make the value larger, or the text not an integer.
            return none_after_overflow(&cs, start, i, acc);
        }
    }
    proof {
        assert(cs@.subrange(start as int, n as int) =~= d);
        if start == 1 {
            assert(t@.drop_first() =~= d);
        } else {
            assert(cs@ =~= d);
        }
    }
    if neg {
        Some((0 - acc) as i64)
    } else if acc <= 9223372036854775807 {
        Some(acc as i64)
    } else {
        None
    }
}

/// After the digits read so far exceed the i64 range, the text gives no i64.
fn none_after_overflow(cs: &Vec<char>, start: usize, i: usize, acc: i128) -> (r: Option<i64>)
    requires
        start == 0 || start == 1,
        start < i <= cs@.len(),
        all_digits(cs@.subrange(start as int, i as int)),
        acc == digits_value(cs@.subrange(start as int, i as int)),
        acc > 9223372036854775808,
        start == 1 ==> (cs@[0] == '-' || cs@[0] == '+'),
        start == 0 ==> !(cs@[0] == '-' || cs@[0] == '+'),
    ensures
        r is None,
        spec_num_as_i64(cs@) is None,
{
    proof {
        let d = cs@.skip(start as int);
        if all_digits(d) {
            assert(d.take(i - start) =~= cs@.subrange(start as int, i as int));
            lemma_digits_value_mono(d, i - start);
            if start == 1 {
                assert(cs@.drop_first() =~= d);
            } else {
                assert(cs@ =~= d);
            }
        } else {
            if start == 1 {
                assert(cs@.drop_first() =~= d);
            } else {
                assert(cs@ =~= d);
            }
        }
    }
    None
}


/// The decimal digit of a value below ten.
pub open spec fn digit_char(d: int) -> char {
    if d == 0 { '0' } else if d == 1 { '1' } else if d == 2 { '2' } else if d == 3 { '3' }
    else if d == 4 { '4' } else if d == 5 { '5' } else if d == 6 { '6' } else if d == 7 { '7' }
    else if d == 8 { '8' } else { '9' }
}

/// The decimal text of a natural number, without leading zeros.
pub open spec fn nat_text(n: nat) -> Seq<char>
    decreases n,
{
    if n < 10 {
        seq![digit_char(n as int)]
    } else {
        nat_text(n / 10).push(digit_char((n % 10) as int))
    }
}

/// The decimal text of an integer, with a minus sign when it is negative.
pub open spec fn int_text(n: int) -> Seq<char> {
    if n < 0 {
        seq!['-'] + nat_text((-n) as nat)
    } else {
        nat_text(n as nat)
    }
}

fn digit_of(d: u64) -> (c: char)
    requires
        d < 10,
    ensures
        c == digit_char(d as int),
{
    if d == 0 { '0' } else if d == 1 { '1' } else if d == 2 { '2' } else if d == 3 { '3' }
    else if d == 4 { '4' } else if d == 5 { '5' } else if d == 6 { '6' } else if d == 7 { '7' }
    else if d == 8 { '8' } else { '9' }
}

pub fn push_nat_text(out: &mut Vec<char>, n: u64)
    ensures
        final(out)@ == old(out)@ + nat_text(n as nat),
    decreases n,
{
    if n < 10 {
        out.push(digit_of(n));
        assert(final(out)@ =~= old(out)@ + nat_text(n as nat));
    } else {
        push_nat_text(out, n / 10);
        out.push(digit_of(n % 10));
        assert(final(out)@ =~= old(out)@ + nat_text(n as nat));
    }
}

/// The decimal text of an integer.
pub fn i64_text(n: i64) -> (r: String)
    ensures
        r@ == int_text(n as int),
{
    let mut out: Vec<char> = Vec::new();
    if n < 0 {
        out.push('-');
        let m: u64 = if n == i64::MIN {
            9223372036854775808
        } else {
            (-n) as u64
        };
        push_nat_text(&mut out, m);
        assert(out@ =~= int_text(n as int));
    } else {
        push_nat_text(&mut out, n as u64);
        assert(out@ =~= int_text(n as int));
    }
    crate::json::chars_to_string(out.as_slice())
}


/// The index of the first item of `s` that satisfies `p`.
pub open spec fn first_index<A>(s: Seq<A>, p: spec_fn(A) -> bool) -> Option<int>
    decreases s.len(),
{
    if s.len() == 0 {
        None
    } else {
        match first_index(s.drop_last(), p) {
            Some(i) => Some(i),
            None => if p(s.last()) {
                Some(s.len() - 1)
            } else {
                None
            },
        }
    }
}

/// `first_index` finds the first item that satisfies the predicate.
pub proof fn lemma_first_index<A>(s: Seq<A>, p: spec_fn(A) -> bool)
    ensures
        first_index(s, p) matches Some(i) ==> {
            &&& 0 <= i < s.len()
            &&& p(s[i])
            &&& forall|j: int| 0 <= j < i ==> !p(#[trigger] s[j])
        },
        first_index(s, p) is None ==> forall|j: int| 0 <= j < s.len() ==> !p(#[trigger] s[j]),
    decreases s.len(),
{
    if s.len() > 0 {
        let d = s.drop_last();
        lemma_first_index(d, p);
        assert(forall|j: int| 0 <= j < d.len() ==> d[j] == s[j]);
    }
}

/// The first item satisfying `p` at `i` makes `i` the first index.
pub proof fn lemma_first_index_at<A>(s: Seq<A>, p: spec_fn(A) -> bool, i: int)
    requires
        0 <= i < s.len(),
        p(s[i]),
        forall|j: int| 0 <= j < i ==> !p(#[trigger] s[j]),
    ensures
        first_index(s, p) == Some(i),
{
    lemma_first_index(s, p);
}

/// With no item satisfying `p`, there is no first index.
pub proof fn lemma_first_index_none<A>(s: Seq<A>, p: spec_fn(A) -> bool)
    requires
        forall|j: int| 0 <= j < s.len() ==> !p(#[trigger] s[j]),
    ensures
        first_index(s, p) is None,
{
    lemma_first_index(s, p);
}

} // verus!
