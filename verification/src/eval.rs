//! The size evaluator: a verified constant-expression evaluator over
//! `+ - * /` and parentheses, the primitive size table, and the expected
//! size of a storage struct.
//!
//! The evaluator's specification, [`eval_chars`], works on the trimmed
//! character view: it splits at the rightmost `+`/`-` outside
//! parentheses (so the lowest-precedence operator is applied last and
//! chains associate to the left), then at the rightmost top-level
//! `*`/`/`, then strips one matching pair of outer parentheses, and
//! finally reads a bare decimal numeral.  Any other shape, a division
//! by zero, or a value outside the signed 64-bit range evaluates to
//! `None`: malformed input is a soft failure, never a panic.

use vstd::prelude::*;
use crate::state::{StorageStruct, StorageStructView};
use crate::text::{depth_delta, str_eq, str_trim, trim_spec};

verus! {

/// Value of a decimal digit character, `-1` for any other character.
pub open spec fn digit_val(c: char) -> int {
    if c == '0' {
        0
    } else if c == '1' {
        1
    } else if c == '2' {
        2
    } else if c == '3' {
        3
    } else if c == '4' {
        4
    } else if c == '5' {
        5
    } else if c == '6' {
        6
    } else if c == '7' {
        7
    } else if c == '8' {
        8
    } else if c == '9' {
        9
    } else {
        -1
    }
}

/// Every character of `s` is a decimal digit.
pub open spec fn all_digits(s: Seq<char>) -> bool {
    forall|i: int| 0 <= i < s.len() ==> digit_val(s[i]) >= 0
}

/// Value of a digit string read most significant digit first.
pub open spec fn digits_val(s: Seq<char>) -> int
    decreases s.len(),
{
    if s.len() == 0 {
        0
    } else {
        digits_val(s.drop_last()) * 10 + digit_val(s.last())
    }
}

/// A nonempty all-digit string whose value fits in a signed 64-bit
/// integer parses to its value; everything else is rejected.
pub open spec fn parse_num_spec(s: Seq<char>) -> Option<int> {
    if s.len() > 0 && all_digits(s) && digits_val(s) <= i64::MAX {
        Some(digits_val(s))
    } else {
        None::<int>
    }
}

proof fn lemma_digits_val_nonneg(s: Seq<char>)
    requires
        all_digits(s),
    ensures
        digits_val(s) >= 0,
    decreases s.len(),
{
    if s.len() > 0 {
        lemma_digits_val_nonneg(s.drop_last());
    }
}

proof fn lemma_digits_val_prefix(s: Seq<char>, i: int)
    requires
        all_digits(s),
        0 <= i <= s.len(),
    ensures
        digits_val(s.take(i)) <= digits_val(s),
    decreases s.len() - i,
{
    if i < s.len() {
        lemma_digits_val_prefix(s, i + 1);
        assert(s.take(i + 1).drop_last() =~= s.take(i));
        assert forall|j: int| 0 <= j < s.take(i).len() implies digit_val(
            #[trigger] s.take(i)[j],
        ) >= 0 by {
            assert(s.take(i)[j] == s[j]);
        }
        lemma_digits_val_nonneg(s.take(i));
    } else {
        assert(s.take(i) =~= s);
    }
}

fn char_digit(c: char) -> (r: i64)
    ensures
        r as int == digit_val(c),
{
    if c == '0' {
        0
    } else if c == '1' {
        1
    } else if c == '2' {
        2
    } else if c == '3' {
        3
    } else if c == '4' {
        4
    } else if c == '5' {
        5
    } else if c == '6' {
        6
    } else if c == '7' {
        7
    } else if c == '8' {
        8
    } else if c == '9' {
        9
    } else {
        -1
    }
}

fn parse_number(s: &str) -> (r: Option<i64>)
    ensures
        match r {
            Some(v) => parse_num_spec(s@) == Some(v as int),
            None => parse_num_spec(s@) is None,
        },
{
    let n = s.unicode_len();
    if n == 0 {
        return None;
    }
    let mut acc: i64 = 0;
    let mut i: usize = 0;
    while i < n
        invariant
            0 <= i <= n,
            n == s@.len(),
            all_digits(s@.take(i as int)),
            0 <= acc,
            acc as int == digits_val(s@.take(i as int)),
        decreases n - i,
    {
        let c = s.get_char(i);
        let d = char_digit(c);
        if d < 0 {
            assert(!all_digits(s@));
            return None;
        }
        let wide: i128 = acc as i128 * 10 + d as i128;
        proof {
            assert(s@.take(i as int + 1).drop_last() =~= s@.take(i as int));
            assert(s@.take(i as int + 1).last() == s@[i as int]);
        }
        if wide > i64::MAX as i128 {
            proof {
                if all_digits(s@) {
                    lemma_digits_val_prefix(s@, i as int + 1);
                }
            }
            return None;
        }
        acc = wide as i64;
        i = i + 1;
    }
    proof {
        assert(s@.take(n as int) =~= s@);
    }
    Some(acc)
}

/// Nesting depth of parentheses and brackets accumulated over `s`.
pub open spec fn prefix_depth(s: Seq<char>) -> int
    decreases s.len(),
{
    if s.len() == 0 {
        0
    } else {
        prefix_depth(s.drop_last()) + depth_delta(s.last())
    }
}

/// The additive operators (split first: lowest precedence).
pub open spec fn is_addsub(c: char) -> bool {
    c == '+' || c == '-'
}

/// The multiplicative operators.
pub open spec fn is_muldiv(c: char) -> bool {
    c == '*' || c == '/'
}

/// Index of the rightmost operator of the chosen class that sits at
/// parenthesis depth zero, or `None`.
pub open spec fn rfind_top(s: Seq<char>, muldiv: bool) -> Option<int>
    decreases s.len(),
{
    if s.len() == 0 {
        None::<int>
    } else if (if muldiv {
        is_muldiv(s.last())
    } else {
        is_addsub(s.last())
    }) && prefix_depth(s.drop_last()) == 0 {
        Some(s.len() - 1)
    } else {
        rfind_top(s.drop_last(), muldiv)
    }
}

proof fn lemma_rfind_top_range(s: Seq<char>, muldiv: bool)
    ensures
        rfind_top(s, muldiv) matches Some(k) ==> 0 <= k < s.len(),
    decreases s.len(),
{
    if s.len() > 0 {
        lemma_rfind_top_range(s.drop_last(), muldiv);
    }
}

proof fn lemma_trim_front_len(s: Seq<char>)
    ensures
        trim_spec(s).len() <= s.len(),
    decreases s.len(),
{
    lemma_trim_back_len(crate::text::trim_front(s));
    if s.len() > 0 && crate::text::is_space_char(s[0]) {
        lemma_trim_front_len(s.drop_first());
    }
}

proof fn lemma_trim_back_len(s: Seq<char>)
    ensures
        crate::text::trim_back(s).len() <= s.len(),
    decreases s.len(),
{
    if s.len() > 0 && crate::text::is_space_char(s.last()) {
        lemma_trim_back_len(s.drop_last());
    }
}

/// `v` if it fits in a signed 64-bit integer.
pub open spec fn clamp64(v: int) -> Option<int> {
    if i64::MIN <= v <= i64::MAX {
        Some(v)
    } else {
        None::<int>
    }
}

/// Truncating (round toward zero) division, as machine division does it.
pub open spec fn trunc_div(x: int, d: int) -> int {
    if x == 0 {
        0
    } else if x > 0 && d > 0 {
        x / d
    } else if x < 0 && d < 0 {
        (x * -1) / (d * -1)
    } else if x < 0 {
        ((x * -1) / d) * -1
    } else {
        (x / (d * -1)) * -1
    }
}

/// Apply the operator character `op` to evaluated operands.
pub open spec fn apply_op(op: char, l: Option<int>, r: Option<int>) -> Option<int> {
    match (l, r) {
        (Some(a), Some(b)) => {
            if op == '+' {
                clamp64(a + b)
            } else if op == '-' {
                clamp64(a - b)
            } else if op == '*' {
                clamp64(a * b)
            } else {
                if b == 0 {
                    None::<int>
                } else {
                    clamp64(trunc_div(a, b))
                }
            }
        },
        _ => None::<int>,
    }
}

/// Value of a constant arithmetic expression, or `None` when the text
/// is not a well-formed integer expression or a step leaves the signed
/// 64-bit range; see the module documentation for the splitting order.
pub open spec fn eval_chars(s: Seq<char>) -> Option<int>
    decreases s.len(),
    via eval_chars_decreases
{
    let t = trim_spec(s);
    match rfind_top(t, false) {
        Some(i) => apply_op(
            t[i],
            eval_chars(t.subrange(0, i)),
            eval_chars(t.subrange(i + 1, t.len() as int)),
        ),
        None => match rfind_top(t, true) {
            Some(i) => apply_op(
                t[i],
                eval_chars(t.subrange(0, i)),
                eval_chars(t.subrange(i + 1, t.len() as int)),
            ),
            None => {
                if t.len() >= 2 && t[0] == '(' && t.last() == ')' {
                    eval_chars(t.subrange(1, t.len() - 1))
                } else {
                    parse_num_spec(t)
                }
            },
        },
    }
}

#[via_fn]
proof fn eval_chars_decreases(s: Seq<char>) {
    let t = trim_spec(s);
    lemma_trim_front_len(s);
    lemma_rfind_top_range(t, false);
    lemma_rfind_top_range(t, true);
}

fn find_rightmost_top_op(s: &str, muldiv: bool) -> (r: Option<usize>)
    ensures
        match r {
            Some(k) => rfind_top(s@, muldiv) == Some(k as int),
            None => rfind_top(s@, muldiv) is None,
        },
{
    let n = s.unicode_len();
    let mut i: usize = 0;
    let mut opens: usize = 0;
    let mut closes: usize = 0;
    let mut best: Option<usize> = None;
    proof {
        assert(s@.take(0) =~= Seq::<char>::empty());
    }
    while i < n
        invariant
            0 <= i <= n,
            n == s@.len(),
            opens <= i,
            closes <= i,
            prefix_depth(s@.take(i as int)) == opens - closes,
            match best {
                Some(k) => rfind_top(s@.take(i as int), muldiv) == Some(k as int),
                None => rfind_top(s@.take(i as int), muldiv) is None,
            },
        decreases n - i,
    {
        let c = s.get_char(i);
        proof {
            assert(s@.take(i as int + 1).drop_last() =~= s@.take(i as int));
            assert(s@.take(i as int + 1).last() == s@[i as int]);
        }
        let is_op = if muldiv {
            c == '*' || c == '/'
        } else {
            c == '+' || c == '-'
        };
        if is_op && opens == closes {
            best = Some(i);
        }
        if c == '(' || c == '[' || c == '{' {
            opens = opens + 1;
        } else if c == ')' || c == ']' || c == '}' {
            closes = closes + 1;
        }
        i = i + 1;
    }
    proof {
        assert(s@.take(n as int) =~= s@);
    }
    best
}

/// Evaluate a constant arithmetic expression; see [`eval_chars`].
pub fn evaluate_expression(text: &str) -> (r: Option<i64>)
    ensures
        match r {
            Some(v) => eval_chars(text@) == Some(v as int),
            None => eval_chars(text@) is None,
        },
    decreases text@.len(),
{
    let t = str_trim(text);
    proof {
        lemma_trim_front_len(text@);
    }
    let n = t.unicode_len();
    let addsub = find_rightmost_top_op(t, false);
    let split = match addsub {
        Some(i) => Some(i),
        None => find_rightmost_top_op(t, true),
    };
    match split {
        Some(i) => {
            proof {
                lemma_rfind_top_range(t@, false);
                lemma_rfind_top_range(t@, true);
            }
            let op = t.get_char(i);
            let left = t.substring_char(0, i);
            let right = t.substring_char(i + 1, n);
            proof {
                assert(left@ =~= t@.subrange(0, i as int));
                assert(right@ =~= t@.subrange(i as int + 1, t@.len() as int));
            }
            let lv = evaluate_expression(left);
            let rv = evaluate_expression(right);
            match (lv, rv) {
                (Some(a), Some(b)) => {
                    if op == '+' {
                        a.checked_add(b)
                    } else if op == '-' {
                        a.checked_sub(b)
                    } else if op == '*' {
                        a.checked_mul(b)
                    } else {
                        a.checked_div(b)
                    }
                },
                _ => None,
            }
        },
        None => {
            if n >= 2 && t.get_char(0) == '(' && t.get_char(n - 1) == ')' {
                let inner = t.substring_char(1, n - 1);
                proof {
                    assert(inner@ =~= t@.subrange(1, t@.len() - 1));
                }
                evaluate_expression(inner)
            } else {
                parse_number(t)
            }
        },
    }
}

/// Byte size of a primitive storage field type: the one-byte integer
/// and boolean family, the wider integer families, and the 32-byte
/// public-key type.  Every other name is unsupported.
pub open spec fn type_size_spec(ty: Seq<char>) -> Option<int> {
    if ty == "u8"@ || ty == "i8"@ || ty == "bool"@ {
        Some(1)
    } else if ty == "u16"@ || ty == "i16"@ {
        Some(2)
    } else if ty == "u32"@ || ty == "i32"@ {
        Some(4)
    } else if ty == "u64"@ || ty == "i64"@ {
        Some(8)
    } else if ty == "u128"@ || ty == "i128"@ {
        Some(16)
    } else if ty == "Pubkey"@ {
        Some(32)
    } else {
        None::<int>
    }
}

/// Size table lookup; see [`type_size_spec`].
pub fn anchor_type_size(ty: &str) -> (r: Option<usize>)
    ensures
        match r {
            Some(v) => type_size_spec(ty@) == Some(v as int),
            None => type_size_spec(ty@) is None,
        },
{
    if str_eq(ty, "u8") || str_eq(ty, "i8") || str_eq(ty, "bool") {
        Some(1)
    } else if str_eq(ty, "u16") || str_eq(ty, "i16") {
        Some(2)
    } else if str_eq(ty, "u32") || str_eq(ty, "i32") {
        Some(4)
    } else if str_eq(ty, "u64") || str_eq(ty, "i64") {
        Some(8)
    } else if str_eq(ty, "u128") || str_eq(ty, "i128") {
        Some(16)
    } else if str_eq(ty, "Pubkey") {
        Some(32)
    } else {
        None
    }
}

/// Every field type of the list has a known primitive size.
pub open spec fn sizes_known(ts: Seq<Seq<char>>) -> bool {
    forall|i: int| 0 <= i < ts.len() ==> type_size_spec(ts[i]) is Some
}

/// Sum of the known primitive sizes (unknown types count zero; they are
/// excluded separately by [`sizes_known`]).
pub open spec fn size_sum(ts: Seq<Seq<char>>) -> int
    decreases ts.len(),
{
    if ts.len() == 0 {
        0
    } else {
        size_sum(ts.drop_last()) + (match type_size_spec(ts.last()) {
            Some(v) => v,
            None => 0,
        })
    }
}

/// Expected byte size of a storage struct: the fixed 8-byte leading
/// discriminator plus the sizes of its fields in declaration order.
/// `None` when a field type is unsupported (aggregate or variable
/// length types cannot be sized this way) or the sum does not fit.
pub open spec fn expected_size_spec(s: StorageStructView) -> Option<int> {
    if sizes_known(s.field_types) && 8 + size_sum(s.field_types) <= usize::MAX {
        Some(8 + size_sum(s.field_types))
    } else {
        None::<int>
    }
}

proof fn lemma_size_sum_prefix(ts: Seq<Seq<char>>, i: int)
    requires
        0 <= i <= ts.len(),
    ensures
        size_sum(ts.take(i)) <= size_sum(ts),
    decreases ts.len() - i,
{
    if i < ts.len() {
        lemma_size_sum_prefix(ts, i + 1);
        assert(ts.take(i + 1).drop_last() =~= ts.take(i));
    } else {
        assert(ts.take(i) =~= ts);
    }
}

/// Expected size of a storage struct; see [`expected_size_spec`].
pub fn extract_types_from_storage_struct(s: &StorageStruct) -> (r: Option<usize>)
    ensures
        match r {
            Some(v) => expected_size_spec(s@) == Some(v as int),
            None => expected_size_spec(s@) is None,
        },
{
    let ghost ts = s@.field_types;
    let n = s.field_types.len();
    let mut sum: usize = 8;
    let mut i: usize = 0;
    proof {
        assert(ts.take(0) =~= Seq::<Seq<char>>::empty());
    }
    while i < n
        invariant
            0 <= i <= n,
            ts == s@.field_types,
            n == ts.len(),
            sizes_known(ts.take(i as int)),
            sum as int == 8 + size_sum(ts.take(i as int)),
        decreases n - i,
    {
        let entry: &String = &s.field_types[i];
        proof {
            assert(ts.take(i as int + 1).drop_last() =~= ts.take(i as int));
            assert(ts.take(i as int + 1).last() == ts[i as int]);
            assert(ts[i as int] == entry@);
        }
        match anchor_type_size(entry.as_str()) {
            None => {
                assert(!sizes_known(ts));
                return None;
            },
            Some(sz) => {
                match sum.checked_add(sz) {
                    None => {
                        proof {
                            lemma_size_sum_prefix(ts, i as int + 1);
                        }
                        return None;
                    },
                    Some(next) => {
                        sum = next;
                    },
                }
            },
        }
        i = i + 1;
    }
    proof {
        assert(ts.take(n as int) =~= ts);
    }
    Some(sum)
}

} // verus!
