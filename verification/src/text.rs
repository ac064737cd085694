//! Verified text utilities: character-level equality, substring search,
//! trimming, depth-aware splitting, and decimal rendering.
//!
//! All specifications are stated over `Seq<char>` views of `&str` values.

use vstd::prelude::*;

verus! {

/// ASCII whitespace recognized by the trimming helpers.
pub open spec fn is_space_char(c: char) -> bool {
    c == ' ' || c == '\t' || c == '\n' || c == '\r'
}

/// Executable form of [`is_space_char`].
pub fn char_is_space(c: char) -> (r: bool)
    ensures
        r == is_space_char(c),
{
    c == ' ' || c == '\t' || c == '\n' || c == '\r'
}

/// Character-wise equality of two string slices.
pub fn str_eq(a: &str, b: &str) -> (r: bool)
    ensures
        r == (a@ == b@),
{
    let alen = a.unicode_len();
    let blen = b.unicode_len();
    if alen != blen {
        return false;
    }
    let mut i: usize = 0;
    while i < alen
        invariant
            0 <= i <= alen,
            alen == a@.len(),
            alen == b@.len(),
            forall|j: int| 0 <= j < i ==> a@[j] == b@[j],
        decreases alen - i,
    {
        if a.get_char(i) != b.get_char(i) {
            return false;
        }
        i = i + 1;
    }
    proof {
        assert(a@ =~= b@);
    }
    true
}

/// `needle` occurs at position `i` of `hay`.
pub open spec fn matches_at(hay: Seq<char>, i: int, needle: Seq<char>) -> bool {
    0 <= i && i + needle.len() <= hay.len() && hay.subrange(i, i + needle.len()) == needle
}

/// `needle` occurs somewhere in `hay` as a contiguous run.
pub open spec fn contains_sub(hay: Seq<char>, needle: Seq<char>) -> bool {
    exists|i: int| matches_at(hay, i, needle)
}

/// `p` is a prefix of `s`.
pub open spec fn has_prefix(s: Seq<char>, p: Seq<char>) -> bool {
    matches_at(s, 0, p)
}

/// `p` is a suffix of `s`.
pub open spec fn has_suffix(s: Seq<char>, p: Seq<char>) -> bool {
    matches_at(s, s.len() - p.len(), p)
}

fn prefix_at(hay: &str, i: usize, needle: &str) -> (r: bool)
    requires
        i + needle@.len() <= hay@.len(),
    ensures
        r == matches_at(hay@, i as int, needle@),
{
    let hlen = hay.unicode_len();
    let nlen = needle.unicode_len();
    let mut j: usize = 0;
    while j < nlen
        invariant
            0 <= j <= nlen,
            nlen == needle@.len(),
            hlen == hay@.len(),
            i + nlen <= hay@.len(),
            forall|k: int| 0 <= k < j ==> hay@[i + k] == needle@[k],
        decreases nlen - j,
    {
        if hay.get_char(i + j) != needle.get_char(j) {
            assert(!matches_at(hay@, i as int, needle@)) by {
                assert(hay@.subrange(i as int, i + needle@.len())[j as int] == hay@[i + j]);
            }
            return false;
        }
        j = j + 1;
    }
    proof {
        assert(hay@.subrange(i as int, i + needle@.len()) =~= needle@);
    }
    true
}

/// Substring search over character views.
pub fn str_contains(hay: &str, needle: &str) -> (r: bool)
    ensures
        r == contains_sub(hay@, needle@),
{
    let hlen = hay.unicode_len();
    let nlen = needle.unicode_len();
    if nlen > hlen {
        return false;
    }
    if nlen == 0 {
        proof {
            assert(hay@.subrange(0, 0) =~= needle@);
            assert(matches_at(hay@, 0, needle@));
        }
        return true;
    }
    let mut i: usize = 0;
    while i <= hlen - nlen
        invariant
            0 <= i <= hlen - nlen + 1,
            1 <= nlen <= hlen,
            hlen == hay@.len(),
            nlen == needle@.len(),
            forall|k: int| 0 <= k < i ==> !matches_at(hay@, k, needle@),
        decreases hlen - nlen + 1 - i,
    {
        if prefix_at(hay, i, needle) {
            return true;
        }
        i = i + 1;
    }
    proof {
        assert(forall|k: int| matches_at(hay@, k, needle@) ==> 0 <= k <= hlen - nlen);
    }
    false
}

/// Prefix test over character views.
pub fn str_starts_with(s: &str, p: &str) -> (r: bool)
    ensures
        r == has_prefix(s@, p@),
{
    let slen = s.unicode_len();
    let plen = p.unicode_len();
    if plen > slen {
        return false;
    }
    prefix_at(s, 0, p)
}

/// Suffix test over character views.
pub fn str_ends_with(s: &str, p: &str) -> (r: bool)
    ensures
        r == has_suffix(s@, p@),
{
    let slen = s.unicode_len();
    let plen = p.unicode_len();
    if plen > slen {
        return false;
    }
    prefix_at(s, slen - plen, p)
}

/// `s` with leading whitespace removed.
pub open spec fn trim_front(s: Seq<char>) -> Seq<char>
    decreases s.len(),
{
    if s.len() > 0 && is_space_char(s[0]) {
        trim_front(s.drop_first())
    } else {
        s
    }
}

/// `s` with trailing whitespace removed.
pub open spec fn trim_back(s: Seq<char>) -> Seq<char>
    decreases s.len(),
{
    if s.len() > 0 && is_space_char(s.last()) {
        trim_back(s.drop_last())
    } else {
        s
    }
}

/// `s` with whitespace removed on both ends.
pub open spec fn trim_spec(s: Seq<char>) -> Seq<char> {
    trim_back(trim_front(s))
}

fn str_trim_front(s: &str) -> (r: &str)
    ensures
        r@ == trim_front(s@),
    decreases s@.len(),
{
    let n = s.unicode_len();
    if n > 0 && char_is_space(s.get_char(0)) {
        let t = s.substring_char(1, n);
        proof {
            assert(t@ =~= s@.drop_first());
        }
        str_trim_front(t)
    } else {
        s
    }
}

fn str_trim_back(s: &str) -> (r: &str)
    ensures
        r@ == trim_back(s@),
    decreases s@.len(),
{
    let n = s.unicode_len();
    if n > 0 && char_is_space(s.get_char(n - 1)) {
        let t = s.substring_char(0, n - 1);
        proof {
            assert(t@ =~= s@.drop_last());
        }
        str_trim_back(t)
    } else {
        s
    }
}

/// Remove whitespace on both ends of `s`.
pub fn str_trim(s: &str) -> (r: &str)
    ensures
        r@ == trim_spec(s@),
{
    str_trim_back(str_trim_front(s))
}

/// Nesting change caused by one character: brackets and parentheses
/// open and close one level each.
pub open spec fn depth_delta(c: char) -> int {
    if c == '(' || c == '[' || c == '{' {
        1
    } else if c == ')' || c == ']' || c == '}' {
        -1
    } else {
        0
    }
}

/// Position of the first comma at nesting depth zero (and outside a
/// double-quoted run) at or after position `i`, given the nesting state
/// reached so far.
pub open spec fn first_top_comma(s: Seq<char>, i: int, depth: int, in_quote: bool) -> Option<int>
    decreases s.len() - i,
{
    if i < 0 || i >= s.len() {
        None::<int>
    } else {
        let c = s[i];
        if in_quote {
            first_top_comma(s, i + 1, depth, c != '"')
        } else if c == '"' {
            first_top_comma(s, i + 1, depth, true)
        } else if c == ',' && depth == 0 {
            Some(i)
        } else {
            first_top_comma(s, i + 1, depth + depth_delta(c), false)
        }
    }
}

proof fn lemma_first_top_comma_range(s: Seq<char>, i: int, depth: int, in_quote: bool)
    ensures
        first_top_comma(s, i, depth, in_quote) matches Some(k) ==> i <= k < s.len(),
    decreases s.len() - i,
{
    if 0 <= i < s.len() {
        let c = s[i];
        if in_quote {
            lemma_first_top_comma_range(s, i + 1, depth, c != '"');
        } else if c == '"' {
            lemma_first_top_comma_range(s, i + 1, depth, true);
        } else if c == ',' && depth == 0 {
        } else {
            lemma_first_top_comma_range(s, i + 1, depth + depth_delta(c), false);
        }
    }
}

/// Split `s` at every comma that sits at nesting depth zero, counting
/// brackets, parentheses and double quotes.  The commas themselves are
/// dropped; an input with no splitting comma yields a single piece.
pub open spec fn split_top_spec(s: Seq<char>) -> Seq<Seq<char>>
    decreases s.len(),
    via split_top_spec_decreases
{
    match first_top_comma(s, 0, 0, false) {
        Some(i) => seq![s.subrange(0, i)] + split_top_spec(s.subrange(i + 1, s.len() as int)),
        None => seq![s],
    }
}

#[via_fn]
proof fn split_top_spec_decreases(s: Seq<char>) {
    lemma_first_top_comma_range(s, 0, 0, false);
}

fn find_top_comma(s: &str) -> (r: Option<usize>)
    ensures
        match r {
            Some(k) => first_top_comma(s@, 0, 0, false) == Some(k as int),
            None => first_top_comma(s@, 0, 0, false) is None,
        },
{
    let n = s.unicode_len();
    let mut i: usize = 0;
    let mut depth: i128 = 0;
    let mut in_quote: bool = false;
    while i < n
        invariant
            0 <= i <= n,
            n == s@.len(),
            -(i as int) <= depth <= i as int,
            first_top_comma(s@, 0, 0, false) == first_top_comma(
                s@,
                i as int,
                depth as int,
                in_quote,
            ),
        decreases n - i,
    {
        let c = s.get_char(i);
        if in_quote {
            in_quote = c != '"';
        } else if c == '"' {
            in_quote = true;
        } else if c == ',' && depth == 0 {
            return Some(i);
        } else {
            proof {
                assert(depth_delta(c) == 1 || depth_delta(c) == -1 || depth_delta(c) == 0);
            }
            if c == '(' || c == '[' || c == '{' {
                depth = depth + 1;
            } else if c == ')' || c == ']' || c == '}' {
                depth = depth - 1;
            }
        }
        i = i + 1;
    }
    None
}

/// Split `s` at every top-level comma; see [`split_top_spec`].
pub fn split_top_level(s: &str) -> (r: Vec<String>)
    ensures
        r.deep_view() == split_top_spec(s@),
{
    let mut out: Vec<String> = Vec::new();
    let mut rest: &str = s;
    loop
        invariant
            split_top_spec(s@) == out.deep_view() + split_top_spec(rest@),
        decreases rest@.len(),
    {
        let ghost out0 = out.deep_view();
        match find_top_comma(rest) {
            None => {
                out.push(rest.to_owned());
                proof {
                    assert(out.deep_view() =~= out0.push(rest@));
                    assert(out.deep_view() =~= split_top_spec(s@));
                }
                return out;
            },
            Some(i) => {
                proof {
                    lemma_first_top_comma_range(rest@, 0, 0, false);
                }
                let n = rest.unicode_len();
                let piece = rest.substring_char(0, i);
                out.push(piece.to_owned());
                rest = rest.substring_char(i + 1, n);
                proof {
                    assert(out.deep_view() =~= out0.push(piece@));
                    assert(out.deep_view() + split_top_spec(rest@) =~= split_top_spec(s@));
                }
            },
        }
    }
}

/// The decimal digit character for `d` (`0 <= d <= 9`).
pub open spec fn digit_char(d: int) -> char {
    if d == 0 {
        '0'
    } else if d == 1 {
        '1'
    } else if d == 2 {
        '2'
    } else if d == 3 {
        '3'
    } else if d == 4 {
        '4'
    } else if d == 5 {
        '5'
    } else if d == 6 {
        '6'
    } else if d == 7 {
        '7'
    } else if d == 8 {
        '8'
    } else {
        '9'
    }
}

/// Decimal representation of a nonnegative integer, most significant
/// digit first, with no leading zeros (`0` is rendered as `"0"`).
pub open spec fn dec_rep(n: int) -> Seq<char>
    decreases n,
{
    if n <= 9 {
        seq![digit_char(n)]
    } else {
        dec_rep(n / 10).push(digit_char(n % 10))
    }
}

/// Decimal representation of a signed integer: a leading `-` for
/// negative values, then the digits of the absolute value.
pub open spec fn dec_rep_signed(n: int) -> Seq<char> {
    if n < 0 {
        seq!['-'] + dec_rep(-n)
    } else {
        dec_rep(n)
    }
}

fn digit_str(d: u64) -> (r: &'static str)
    requires
        d <= 9,
    ensures
        r@ == seq![digit_char(d as int)],
{
    let r: &'static str = if d == 0 {
        "0"
    } else if d == 1 {
        "1"
    } else if d == 2 {
        "2"
    } else if d == 3 {
        "3"
    } else if d == 4 {
        "4"
    } else if d == 5 {
        "5"
    } else if d == 6 {
        "6"
    } else if d == 7 {
        "7"
    } else if d == 8 {
        "8"
    } else {
        "9"
    };
    proof {
        reveal_strlit("0");
        reveal_strlit("1");
        reveal_strlit("2");
        reveal_strlit("3");
        reveal_strlit("4");
        reveal_strlit("5");
        reveal_strlit("6");
        reveal_strlit("7");
        reveal_strlit("8");
        reveal_strlit("9");
        assert(r@ =~= seq![digit_char(d as int)]);
    }
    r
}

fn u64_dec_string(n: u64) -> (r: String)
    ensures
        r@ == dec_rep(n as int),
    decreases n,
{
    if n <= 9 {
        digit_str(n).to_owned()
    } else {
        let high = u64_dec_string(n / 10);
        let low = digit_str(n % 10);
        let r = high.concat(low);
        proof {
            assert(r@ =~= dec_rep(n as int));
        }
        r
    }
}

/// Render a signed integer in decimal; see [`dec_rep_signed`].
pub fn i64_to_decimal(n: i64) -> (r: String)
    ensures
        r@ == dec_rep_signed(n as int),
{
    if n >= 0 {
        u64_dec_string(n as u64)
    } else {
        let m: u64 = if n == i64::MIN {
            9223372036854775808u64
        } else {
            (-n) as u64
        };
        let digits = u64_dec_string(m);
        let sign: &str = "-";
        proof {
            reveal_strlit("-");
        }
        let r = sign.to_owned().concat(digits.as_str());
        proof {
            assert(r@ =~= dec_rep_signed(n as int));
        }
        r
    }
}

} // verus!
