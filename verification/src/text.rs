//! Character-level text utilities shared by the scanner, the classifier and
//! the artifact generator, with their mathematical models.

use vstd::prelude::*;
use vstd::string::{StrSliceExecFns, StringExecFns};

verus! {

/// The whitespace characters that delimit bare tokens in SQL text.
pub open spec fn is_ws(c: char) -> bool {
    c == ' ' || c == '\t' || c == '\n' || c == '\r'
}

/// Whitespace test, one character.
pub fn is_ws_char(c: char) -> (r: bool)
    ensures
        r == is_ws(c),
{
    c == ' ' || c == '\t' || c == '\n' || c == '\r'
}

/// End of the whitespace run that starts at `i`: the first index at or after
/// `i` holding a non-whitespace character, or the length.
pub open spec fn ws_run_end(s: Seq<char>, i: int) -> int
    decreases s.len() - i,
{
    if i < 0 || i >= s.len() {
        i
    } else if is_ws(s[i]) {
        ws_run_end(s, i + 1)
    } else {
        i
    }
}

/// Start of the whitespace run that ends at `i`, walking backwards: the least
/// index `b` such that everything in `[b, i)` is whitespace.
pub open spec fn ws_run_start_back(s: Seq<char>, i: int) -> int
    decreases i,
{
    if i <= 0 {
        0
    } else if is_ws(s[i - 1]) {
        ws_run_start_back(s, i - 1)
    } else {
        i
    }
}

pub proof fn lemma_ws_run_start_back_le(s: Seq<char>, i: int)
    requires
        0 <= i,
    ensures
        0 <= ws_run_start_back(s, i) <= i,
    decreases i,
{
    if i > 0 && is_ws(s[i - 1]) {
        lemma_ws_run_start_back_le(s, i - 1);
    }
}

/// The text with leading and trailing whitespace removed.
pub open spec fn spec_trim(s: Seq<char>) -> Seq<char> {
    let lo = ws_run_end(s, 0);
    let hi = ws_run_start_back(s, s.len() as int);
    if lo < hi {
        s.subrange(lo, hi)
    } else {
        Seq::empty()
    }
}

/// Removes leading and trailing whitespace.
pub fn trim_str<'a>(s: &'a str) -> (r: &'a str)
    ensures
        r@ == spec_trim(s@),
{
    let n = s.unicode_len();
    let mut a: usize = 0;
    while a < n && is_ws_char(s.get_char(a))
        invariant
            0 <= a <= n,
            n == s@.len(),
            ws_run_end(s@, 0) == ws_run_end(s@, a as int),
        decreases n - a,
    {
        proof {
            assert(ws_run_end(s@, a as int) == ws_run_end(s@, a + 1 as int));
        }
        a = a + 1;
    }
    proof {
        assert(ws_run_end(s@, a as int) == a as int);
    }
    if a == n {
        proof {
            lemma_ws_run_start_back_le(s@, n as int);
            reveal_strlit("");
            assert(""@ =~= Seq::<char>::empty());
        }
        return "";
    }
    let mut b: usize = n;
    while b > a && is_ws_char(s.get_char(b - 1))
        invariant
            a <= b <= n,
            a < n,
            n == s@.len(),
            !is_ws(s@[a as int]),
            ws_run_start_back(s@, n as int) == ws_run_start_back(s@, b as int),
            a < b,
        decreases b,
    {
        proof {
            assert(ws_run_start_back(s@, b as int) == ws_run_start_back(s@, (b - 1) as int));
        }
        b = b - 1;
    }
    proof {
        assert(ws_run_start_back(s@, b as int) == b as int);
    }
    s.substring_char(a, b)
}

/// The least index at or after `i` holding the character `c`, if any.
pub open spec fn find_char_from(s: Seq<char>, c: char, i: int) -> Option<int>
    decreases s.len() - i,
{
    if i < 0 || i >= s.len() {
        None
    } else if s[i] == c {
        Some(i)
    } else {
        find_char_from(s, c, i + 1)
    }
}

pub proof fn lemma_find_char_from_bounds(s: Seq<char>, c: char, i: int)
    requires
        find_char_from(s, c, i) is Some,
    ensures
        i <= find_char_from(s, c, i).unwrap() < s.len(),
        s[find_char_from(s, c, i).unwrap()] == c,
    decreases s.len() - i,
{
    if 0 <= i < s.len() && s[i] != c {
        lemma_find_char_from_bounds(s, c, i + 1);
    }
}

/// Finds the first occurrence of `c` at or after `from`.
pub fn find_char(s: &str, c: char, from: usize) -> (r: Option<usize>)
    ensures
        match r {
            Some(j) => find_char_from(s@, c, from as int) == Some(j as int),
            None => find_char_from(s@, c, from as int) is None,
        },
{
    let n = s.unicode_len();
    if from >= n {
        return None;
    }
    let mut j: usize = from;
    while j < n && s.get_char(j) != c
        invariant
            from <= j <= n,
            n == s@.len(),
            find_char_from(s@, c, from as int) == find_char_from(s@, c, j as int),
        decreases n - j,
    {
        proof {
            assert(find_char_from(s@, c, j as int) == find_char_from(s@, c, j + 1 as int));
        }
        j = j + 1;
    }
    if j < n {
        Some(j)
    } else {
        None
    }
}

/// Decimal digit character for a value below ten.
pub open spec fn digit_char(d: nat) -> char {
    if d == 0 {
        '0'
    } else if d == 1 {
        '1'
    } else if d == 2 {
        '2'
    } else if d == 3 {
        '3'
    } else if d == 4 {
        '4'
    } else if d == 5 {
        '5'
    } else if d == 6 {
        '6'
    } else if d == 7 {
        '7'
    } else if d == 8 {
        '8'
    } else {
        '9'
    }
}

/// One-character string slice for a decimal digit.
pub fn digit_str(d: usize) -> (r: &'static str)
    requires
        d < 10,
    ensures
        r@ == seq![digit_char(d as nat)],
{
    proof {
        reveal_strlit("0");
        reveal_strlit("1");
        reveal_strlit("2");
        reveal_strlit("3");
        reveal_strlit("4");
        reveal_strlit("5");
        reveal_strlit("6");
        reveal_strlit("7");
        reveal_strlit("8");
        reveal_strlit("9");
    }
    if d == 0 {
        "0"
    } else if d == 1 {
        "1"
    } else if d == 2 {
        "2"
    } else if d == 3 {
        "3"
    } else if d == 4 {
        "4"
    } else if d == 5 {
        "5"
    } else if d == 6 {
        "6"
    } else if d == 7 {
        "7"
    } else if d == 8 {
        "8"
    } else {
        "9"
    }
}

/// The usual decimal rendering of a natural number, most significant digit
/// first, without leading zeros.
pub open spec fn spec_dec(n: nat) -> Seq<char>
    decreases n,
{
    if n < 10 {
        seq![digit_char(n)]
    } else {
        spec_dec(n / 10) + seq![digit_char(n % 10)]
    }
}

/// Renders a number in decimal.
pub fn usize_to_string(n: usize) -> (r: String)
    ensures
        r@ == spec_dec(n as nat),
    decreases n,
{
    if n < 10 {
        digit_str(n).to_owned()
    } else {
        let mut r = usize_to_string(n / 10);
        r.append(digit_str(n % 10));
        r
    }
}

/// How one character reads inside a double-quoted Rust string literal.
pub open spec fn esc_char(c: char) -> Seq<char> {
    if c == '"' {
        seq!['\\', '"']
    } else if c == '\\' {
        seq!['\\', '\\']
    } else {
        seq![c]
    }
}

/// The text with every quote and backslash escaped, so that it can stand
/// between double quotes in Rust source.
pub open spec fn spec_escape(s: Seq<char>) -> Seq<char>
    decreases s.len(),
{
    if s.len() == 0 {
        Seq::empty()
    } else {
        esc_char(s[0]) + spec_escape(s.drop_first())
    }
}

proof fn lemma_escape_push(s: Seq<char>, c: char)
    ensures
        spec_escape(s.push(c)) == spec_escape(s) + esc_char(c),
    decreases s.len(),
{
    if s.len() == 0 {
        assert(s.push(c).drop_first() =~= Seq::<char>::empty());
        assert(s.push(c)[0] == c);
        assert(spec_escape(Seq::<char>::empty()) == Seq::<char>::empty());
        assert(spec_escape(s.push(c)) == esc_char(c) + Seq::<char>::empty());
        assert(esc_char(c) + Seq::<char>::empty() =~= esc_char(c));
        assert(spec_escape(s) + esc_char(c) =~= esc_char(c));
    } else {
        assert(s.push(c).drop_first() =~= s.drop_first().push(c));
        lemma_escape_push(s.drop_first(), c);
        assert(spec_escape(s.push(c)) == esc_char(s[0]) + (spec_escape(s.drop_first()) + esc_char(
            c,
        )));
        assert(esc_char(s[0]) + (spec_escape(s.drop_first()) + esc_char(c)) =~= (esc_char(s[0])
            + spec_escape(s.drop_first())) + esc_char(c));
    }
}

/// Escapes quotes and backslashes for a double-quoted Rust string literal.
pub fn escape_str_literal(s: &str) -> (r: String)
    ensures
        r@ == spec_escape(s@),
{
    let n = s.unicode_len();
    let mut r = String::new();
    let mut i: usize = 0;
    proof {
        assert(s@.subrange(0, 0) =~= Seq::<char>::empty());
    }
    while i < n
        invariant
            0 <= i <= n,
            n == s@.len(),
            r@ == spec_escape(s@.subrange(0, i as int)),
        decreases n - i,
    {
        let c = s.get_char(i);
        if c == '"' {
            r.append("\\\"");
            proof {
                reveal_strlit("\\\"");
                assert("\\\""@ =~= esc_char(c));
            }
        } else if c == '\\' {
            r.append("\\\\");
            proof {
                reveal_strlit("\\\\");
                assert("\\\\"@ =~= esc_char(c));
            }
        } else {
            let piece = s.substring_char(i, i + 1);
            r.append(piece);
            proof {
                assert(piece@ =~= esc_char(c));
            }
        }
        proof {
            lemma_escape_push(s@.subrange(0, i as int), c);
            assert(s@.subrange(0, i + 1 as int) =~= s@.subrange(0, i as int).push(c));
        }
        i = i + 1;
    }
    proof {
        assert(s@.subrange(0, n as int) =~= s@);
    }
    r
}

/// All the parts, joined in order.
pub open spec fn concat_all(parts: Seq<Seq<char>>) -> Seq<char>
    decreases parts.len(),
{
    if parts.len() == 0 {
        Seq::empty()
    } else {
        parts[0] + concat_all(parts.drop_first())
    }
}

pub proof fn lemma_concat_all_push(parts: Seq<Seq<char>>, x: Seq<char>)
    ensures
        concat_all(parts.push(x)) == concat_all(parts) + x,
    decreases parts.len(),
{
    if parts.len() == 0 {
        assert(parts.push(x).drop_first() =~= Seq::<Seq<char>>::empty());
        assert(parts.push(x)[0] == x);
        assert(concat_all(Seq::<Seq<char>>::empty()) == Seq::<char>::empty());
        assert(concat_all(parts.push(x)) == x + Seq::<char>::empty());
        assert(x + Seq::<char>::empty() =~= x);
        assert(concat_all(parts) + x =~= x);
    } else {
        assert(parts.push(x).drop_first() =~= parts.drop_first().push(x));
        lemma_concat_all_push(parts.drop_first(), x);
        assert(concat_all(parts.push(x)) == parts[0] + (concat_all(parts.drop_first()) + x));
        assert(parts[0] + (concat_all(parts.drop_first()) + x) =~= (parts[0] + concat_all(
            parts.drop_first(),
        )) + x);
    }
}


/// The value of a decimal digit character; a negative result marks a
/// non-digit.
pub open spec fn digit_of(c: char) -> int {
    if c == '0' {
        0
    } else if c == '1' {
        1
    } else if c == '2' {
        2
    } else if c == '3' {
        3
    } else if c == '4' {
        4
    } else if c == '5' {
        5
    } else if c == '6' {
        6
    } else if c == '7' {
        7
    } else if c == '8' {
        8
    } else if c == '9' {
        9
    } else {
        -1
    }
}

/// Every character is a decimal digit.
pub open spec fn all_digits(s: Seq<char>) -> bool {
    forall|i: int| 0 <= i < s.len() ==> digit_of(#[trigger] s[i]) >= 0
}

/// The value of a digit run read as a decimal number.
pub open spec fn digits_val(s: Seq<char>) -> int
    decreases s.len(),
{
    if s.len() == 0 {
        0
    } else {
        digits_val(s.drop_last()) * 10 + digit_of(s.last())
    }
}

pub proof fn lemma_digits_val_nonneg(s: Seq<char>)
    requires
        all_digits(s),
    ensures
        digits_val(s) >= 0,
    decreases s.len(),
{
    if s.len() > 0 {
        assert(all_digits(s.drop_last())) by {
            assert forall|i: int| 0 <= i < s.drop_last().len() implies digit_of(
                #[trigger] s.drop_last()[i],
            ) >= 0 by {
                assert(s.drop_last()[i] == s[i]);
            }
        }
        lemma_digits_val_nonneg(s.drop_last());
    }
}

/// What a whole text means as a signed 64-bit decimal number: an optional
/// sign, then one or more digits, the value within the type's range —
/// anything else is refused.
pub open spec fn spec_parse_i64(s: Seq<char>) -> Option<int> {
    if s.len() >= 1 && (s[0] == '+' || s[0] == '-') {
        spec_parse_digits(s.drop_first(), s[0] == '-')
    } else {
        spec_parse_digits(s, false)
    }
}

/// The digit-run part of the number, with the sign already consumed.
pub open spec fn spec_parse_digits(ds: Seq<char>, neg: bool) -> Option<int> {
    if ds.len() == 0 || !all_digits(ds) {
        None
    } else {
        let v = if neg {
            -digits_val(ds)
        } else {
            digits_val(ds)
        };
        if i64::MIN <= v <= i64::MAX {
            Some(v)
        } else {
            None
        }
    }
}

/// The value of a decimal digit character.
fn digit_val_exec(c: char) -> (r: Option<u8>)
    ensures
        (match r {
            Some(d) => digit_of(c) == d as int,
            None => digit_of(c) < 0,
        }),
{
    if c == '0' {
        Some(0)
    } else if c == '1' {
        Some(1)
    } else if c == '2' {
        Some(2)
    } else if c == '3' {
        Some(3)
    } else if c == '4' {
        Some(4)
    } else if c == '5' {
        Some(5)
    } else if c == '6' {
        Some(6)
    } else if c == '7' {
        Some(7)
    } else if c == '8' {
        Some(8)
    } else if c == '9' {
        Some(9)
    } else {
        None
    }
}

/// Parses the digit run `s[from..]`, already known to follow the sign.
fn parse_digits_exec(s: &str, from: usize, neg: bool) -> (r: Option<i64>)
    requires
        from <= s@.len(),
    ensures
        (match r {
            Some(v) => spec_parse_digits(s@.skip(from as int), neg) == Some(v as int),
            None => spec_parse_digits(s@.skip(from as int), neg) is None,
        }),
{
    let n = s.unicode_len();
    if from == n {
        return None;
    }
    let ghost ds = s@.skip(from as int);
    let mut mag: u128 = 0;
    let mut i: usize = from;
    while i < n
        invariant
            from <= i <= n,
            n == s@.len(),
            ds == s@.skip(from as int),
            all_digits(ds.take(i - from as int)),
            digits_val(ds.take(i - from as int)) <= 0x8000_0000_0000_0000u128 as int ==> mag as int
                == digits_val(ds.take(i - from as int)),
            digits_val(ds.take(i - from as int)) > 0x8000_0000_0000_0000u128 as int ==> mag as int
                > 0x8000_0000_0000_0000u128 as int,
            mag <= 0xA000_0000_0000_0000_0u128,
        decreases n - i,
    {
        let c = s.get_char(i);
        proof {
            assert(ds[i - from as int] == s@[i as int]);
        }
        let d = match digit_val_exec(c) {
            Some(d) => d,
            None => {
                proof {
                    assert(digit_of(ds[i - from as int]) < 0);
                    assert(!all_digits(ds));
                }
                return None;
            },
        };
        proof {
            let k = i - from as int;
            let pfx = ds.take(k);
            let pfx1 = ds.take(k + 1);
            assert(pfx1.drop_last() =~= pfx);
            assert(pfx1.last() == ds[k]);
            assert(digits_val(pfx1) == digits_val(pfx) * 10 + digit_of(ds[k]));
            assert(all_digits(pfx1)) by {
                assert forall|j: int| 0 <= j < pfx1.len() implies digit_of(
                    #[trigger] pfx1[j],
                ) >= 0 by {
                    if j < k {
                        assert(pfx1[j] == pfx[j]);
                    } else {
                        assert(pfx1[j] == ds[k]);
                    }
                }
            }
            lemma_digits_val_nonneg(pfx);
        }
        if mag <= 0x8000_0000_0000_0000u128 {
            mag = mag * 10 + (d as u128);
        }
        i = i + 1;
    }
    proof {
        assert(ds.take(n - from as int) =~= ds);
        lemma_digits_val_nonneg(ds);
    }
    if neg {
        if mag < 0x8000_0000_0000_0000u128 {
            Some(-(mag as i64))
        } else if mag == 0x8000_0000_0000_0000u128 {
            Some(i64::MIN)
        } else {
            None
        }
    } else {
        if mag <= 0x7FFF_FFFF_FFFF_FFFFu128 {
            Some(mag as i64)
        } else {
            None
        }
    }
}

/// Parses a signed 64-bit decimal number: an optional sign, then one or more
/// digits; refused on any other character or when the value does not fit.
pub fn parse_i64(s: &str) -> (r: Option<i64>)
    ensures
        (match r {
            Some(v) => spec_parse_i64(s@) == Some(v as int),
            None => spec_parse_i64(s@) is None,
        }),
{
    let n = s.unicode_len();
    if n >= 1 {
        let c = s.get_char(0);
        if c == '+' || c == '-' {
            proof {
                assert(s@.skip(1) =~= s@.drop_first());
            }
            return parse_digits_exec(s, 1, c == '-');
        }
    }
    proof {
        assert(s@.skip(0) =~= s@);
    }
    parse_digits_exec(s, 0, false)
}


} // verus!
