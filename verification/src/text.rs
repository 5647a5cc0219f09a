//! Decimal text: formatting unsigned and signed integers, reading integer
//! literals the way Rust's integer `FromStr` reads them, and joining path
//! components with `/`.
use vstd::prelude::*;
use vstd::string::*;

verus! {

/// The character of a decimal digit `d` (`d < 10`).
pub open spec fn digit_char(d: nat) -> char {
    (48 + d) as char
}

/// Decimal representation of `n`, most significant digit first, no leading zeros.
pub open spec fn decimal(n: nat) -> Seq<char>
    decreases n,
{
    if n < 10 {
        seq![digit_char(n)]
    } else {
        decimal(n / 10).push(digit_char(n % 10))
    }
}

/// `n` zero characters.
pub open spec fn zeros(n: nat) -> Seq<char> {
    Seq::new(n, |i: int| '0')
}

/// Decimal representation of `n`, left-padded with zeros to at least `width` characters.
pub open spec fn padded_decimal(n: nat, width: nat) -> Seq<char> {
    let d = decimal(n);
    if d.len() >= width {
        d
    } else {
        zeros((width - d.len()) as nat) + d
    }
}

/// Decimal representation of a signed integer: a leading `-` for negatives.
pub open spec fn signed_decimal(v: int) -> Seq<char> {
    if v < 0 {
        seq!['-'] + decimal((-v) as nat)
    } else {
        decimal(v as nat)
    }
}

pub open spec fn is_ascii_digit(c: char) -> bool {
    '0' <= c && c <= '9'
}

pub open spec fn digit_value(c: char) -> nat {
    (c as int - 48) as nat
}

pub open spec fn all_digits(s: Seq<char>) -> bool {
    forall|i: int| 0 <= i < s.len() ==> is_ascii_digit(#[trigger] s[i])
}

/// Value of a string of decimal digits, most significant first.
pub open spec fn digits_value(s: Seq<char>) -> nat
    decreases s.len(),
{
    if s.len() == 0 {
        0
    } else {
        digits_value(s.drop_last()) * 10 + digit_value(s.last())
    }
}

/// The integer that a decimal literal denotes, read as Rust's integer `FromStr`
/// reads it before the range check: an optional `+` (or, when `signed`, `-`),
/// then one or more ASCII digits and nothing else.
pub open spec fn int_text_value(s: Seq<char>, signed: bool) -> Option<int> {
    let (neg, body) = if s.len() > 0 && s[0] == '+' {
        (false, s.drop_first())
    } else if signed && s.len() > 0 && s[0] == '-' {
        (true, s.drop_first())
    } else {
        (false, s)
    };
    if body.len() > 0 && all_digits(body) {
        if neg {
            Some(-(digits_value(body) as int))
        } else {
            Some(digits_value(body) as int)
        }
    } else {
        None
    }
}

/// What `s.parse::<T>()` gives for an integer type `T` with bounds `lo..=hi`.
pub open spec fn parse_int_spec(s: Seq<char>, signed: bool, lo: int, hi: int) -> Option<int> {
    match int_text_value(s, signed) {
        Some(v) => if lo <= v <= hi {
            Some(v)
        } else {
            None
        },
        None => None,
    }
}

pub proof fn lemma_digits_value_take_le(s: Seq<char>, k: int)
    requires
        0 <= k <= s.len(),
    ensures
        digits_value(s.take(k)) <= digits_value(s),
    decreases s.len() - k,
{
    if k < s.len() {
        lemma_digits_value_take_le(s, k + 1);
        assert(s.take(k + 1).drop_last() =~= s.take(k));
        assert(digits_value(s.take(k + 1)) == digits_value(s.take(k)) * 10 + digit_value(
            s.take(k + 1).last(),
        ));
    } else {
        assert(s.take(k) =~= s);
    }
}

fn digit_str(d: u64) -> (r: &'static str)
    requires
        d < 10,
    ensures
        r@ == seq![digit_char(d as nat)],
{
    if d == 0 {
        proof { reveal_strlit("0"); }
        "0"
    } else if d == 1 {
        proof { reveal_strlit("1"); }
        "1"
    } else if d == 2 {
        proof { reveal_strlit("2"); }
        "2"
    } else if d == 3 {
        proof { reveal_strlit("3"); }
        "3"
    } else if d == 4 {
        proof { reveal_strlit("4"); }
        "4"
    } else if d == 5 {
        proof { reveal_strlit("5"); }
        "5"
    } else if d == 6 {
        proof { reveal_strlit("6"); }
        "6"
    } else if d == 7 {
        proof { reveal_strlit("7"); }
        "7"
    } else if d == 8 {
        proof { reveal_strlit("8"); }
        "8"
    } else {
        proof { reveal_strlit("9"); }
        "9"
    }
}

/// Appends the decimal representation of `n` to `out`.
pub fn push_decimal(out: &mut String, n: u64)
    ensures
        final(out)@ == old(out)@ + decimal(n as nat),
    decreases n,
{
    if n >= 10 {
        push_decimal(out, n / 10);
    }
    out.append(digit_str(n % 10));
    proof {
        if n >= 10 {
            assert(decimal(n as nat) == decimal((n / 10) as nat).push(digit_char((n % 10) as nat)));
        }
    }
}

/// The decimal representation of `n`.
pub fn fmt_u64(n: u64) -> (r: String)
    ensures
        r@ == decimal(n as nat),
{
    let mut s = String::new();
    push_decimal(&mut s, n);
    s
}

/// The decimal representation of a signed `n`.
pub fn fmt_i64(n: i64) -> (r: String)
    ensures
        r@ == signed_decimal(n as int),
{
    let mut s = String::new();
    if n < 0 {
        proof { reveal_strlit("-"); }
        s.append("-");
        let mag: u64 = (0i128 - n as i128) as u64;
        push_decimal(&mut s, mag);
    } else {
        push_decimal(&mut s, n as u64);
    }
    s
}

pub proof fn lemma_decimal_len_pos(n: nat)
    ensures
        decimal(n).len() >= 1,
    decreases n,
{
    if n >= 10 {
        lemma_decimal_len_pos(n / 10);
    }
}

/// Appends `n` in decimal, left-padded with zeros to `width` characters.
pub fn push_padded_decimal(out: &mut String, n: u64, width: usize)
    ensures
        final(out)@ == old(out)@ + padded_decimal(n as nat, width as nat),
{
    let digits = fmt_u64(n);
    let len = digits.as_str().unicode_len();
    proof { reveal_strlit("0"); }
    if len < width {
        let mut i: usize = len;
        while i < width
            invariant
                len <= i <= width,
                out@ == old(out)@ + zeros((i - len) as nat),
            decreases width - i,
        {
            proof { reveal_strlit("0"); }
            out.append("0");
            i = i + 1;
            assert(zeros((i - len) as nat) =~= zeros((i - 1 - len) as nat).push('0'));
        }
    }
    out.append(digits.as_str());
    proof {
        if len >= width {
            assert(out@ =~= old(out)@ + padded_decimal(n as nat, width as nat));
        } else {
            assert(out@ =~= old(out)@ + padded_decimal(n as nat, width as nat));
        }
    }
}

/// `base` joined with the relative component `name`, as `Path::join` joins them:
/// the component alone when `base` is empty, otherwise with one `/` between
/// them unless `base` already ends with `/`.
pub open spec fn join_path_spec(base: Seq<char>, name: Seq<char>) -> Seq<char> {
    if base.len() == 0 {
        name
    } else if base.last() == '/' {
        base + name
    } else {
        base + seq!['/'] + name
    }
}

/// Joins a relative component onto a directory path.
pub fn join_path(base: &str, name: &str) -> (r: String)
    ensures
        r@ == join_path_spec(base@, name@),
{
    let n = base.unicode_len();
    let mut s = String::from_str(base);
    if n > 0 {
        let last = base.get_char(n - 1);
        if last != '/' {
            proof { reveal_strlit("/"); }
            s.append("/");
        }
    }
    s.append(name);
    s
}

/// Reads the run of characters `s[start..]` as decimal digits, giving their
/// value when every character is a digit, there is at least one, and the value
/// does not exceed `cap`.
fn digits_upto(s: &str, start: usize, cap: u128) -> (r: Option<u128>)
    requires
        start <= s@.len(),
        cap <= 0x8000_0000_0000_0000_0000_0000_0000_0000u128,
    ensures
        ({
            let body = s@.skip(start as int);
            match r {
                Some(v) => body.len() > 0 && all_digits(body) && v == digits_value(body) && v <= cap,
                None => !(body.len() > 0 && all_digits(body) && digits_value(body) <= cap),
            }
        }),
{
    let n = s.unicode_len();
    let ghost body = s@.skip(start as int);
    if start >= n {
        return None;
    }
    let mut acc: u128 = 0;
    let mut i: usize = start;
    while i < n
        invariant
            n == s@.len(),
            start <= i <= n,
            body == s@.skip(start as int),
            cap <= 0x8000_0000_0000_0000_0000_0000_0000_0000u128,
            all_digits(body.take(i - start)),
            acc == digits_value(body.take(i - start)),
            acc <= cap,
        decreases n - i,
    {
        let c = s.get_char(i);
        if !('0' <= c && c <= '9') {
            proof {
                assert(body[i - start] == c);
            }
            return None;
        }
        let d: u128 = (c as u32 - 48u32) as u128;
        proof {
            assert(body.take(i - start + 1).drop_last() =~= body.take(i - start));
            assert(body.take(i - start + 1).last() == c);
        }
        if acc > cap / 10 {
            proof {
                assert(acc * 10 > cap) by (nonlinear_arith)
                    requires acc > cap / 10;
                assert(digits_value(body.take(i - start + 1)) > cap);
                if all_digits(body) {
                    lemma_digits_value_take_le(body, i - start + 1);
                }
            }
            return None;
        }
        assert(acc * 10 <= cap) by (nonlinear_arith)
            requires acc <= cap / 10;
        let next = acc * 10 + d;
        if next > cap {
            proof {
                if all_digits(body) {
                    lemma_digits_value_take_le(body, i - start + 1);
                }
            }
            return None;
        }
        acc = next;
        i = i + 1;
        proof {
            assert forall|j: int| 0 <= j < body.take(i - start).len() implies is_ascii_digit(
                #[trigger] body.take(i - start)[j],
            ) by {
                if j < i - 1 - start {
                    assert(body.take(i - start)[j] == body.take(i - 1 - start)[j]);
                }
            }
        }
    }
    proof {
        assert(body.take(n - start) =~= body);
    }
    Some(acc)
}

/// Reads an integer literal with an optional sign, accepting exactly the
/// values in `-neg_cap..=pos_cap`; the magnitude and sign come back separately.
fn parse_signed_text(s: &str, signed: bool, pos_cap: u128, neg_cap: u128) -> (r: Option<(bool, u128)>)
    requires
        pos_cap <= 0x8000_0000_0000_0000_0000_0000_0000_0000u128,
        neg_cap <= 0x8000_0000_0000_0000_0000_0000_0000_0000u128,
    ensures
        match r {
            Some((neg, m)) => int_text_value(s@, signed) == Some(if neg { -(m as int) } else { m as int })
                && (if neg { m <= neg_cap } else { m <= pos_cap }),
            None => match int_text_value(s@, signed) {
                Some(v) => v > pos_cap || v < -(neg_cap as int),
                None => true,
            },
        },
{
    let n = s.unicode_len();
    proof { reveal_strlit("+"); }
    if n > 0 && s.get_char(0) == '+' {
        match digits_upto(s, 1, pos_cap) {
            Some(m) => {
                proof { assert(s@.skip(1) =~= s@.drop_first()); }
                Some((false, m))
            },
            None => {
                proof { assert(s@.skip(1) =~= s@.drop_first()); }
                None
            },
        }
    } else if signed && n > 0 && s.get_char(0) == '-' {
        match digits_upto(s, 1, neg_cap) {
            Some(m) => {
                proof { assert(s@.skip(1) =~= s@.drop_first()); }
                Some((true, m))
            },
            None => {
                proof { assert(s@.skip(1) =~= s@.drop_first()); }
                None
            },
        }
    } else {
        match digits_upto(s, 0, pos_cap) {
            Some(m) => {
                proof { assert(s@.skip(0) =~= s@); }
                Some((false, m))
            },
            None => {
                proof { assert(s@.skip(0) =~= s@); }
                None
            },
        }
    }
}

/// `s.parse::<i64>().ok()`.
pub fn parse_i64(s: &str) -> (r: Option<i64>)
    ensures
        match r {
            Some(v) => parse_int_spec(s@, true, i64::MIN as int, i64::MAX as int) == Some(v as int),
            None => parse_int_spec(s@, true, i64::MIN as int, i64::MAX as int) is None,
        },
{
    match parse_signed_text(s, true, 0x7fff_ffff_ffff_ffffu128, 0x8000_0000_0000_0000u128) {
        Some((neg, m)) => {
            if neg {
                Some((0i128 - m as i128) as i64)
            } else {
                Some(m as i64)
            }
        },
        None => None,
    }
}

/// `s.parse::<u64>().ok()`.
pub fn parse_u64(s: &str) -> (r: Option<u64>)
    ensures
        match r {
            Some(v) => parse_int_spec(s@, false, 0, u64::MAX as int) == Some(v as int),
            None => parse_int_spec(s@, false, 0, u64::MAX as int) is None,
        },
{
    match parse_signed_text(s, false, 0xffff_ffff_ffff_ffffu128, 0) {
        Some((_neg, m)) => Some(m as u64),
        None => None,
    }
}

/// `s.parse::<i128>().ok()`.
pub fn parse_i128(s: &str) -> (r: Option<i128>)
    ensures
        match r {
            Some(v) => parse_int_spec(s@, true, i128::MIN as int, i128::MAX as int) == Some(v as int),
            None => parse_int_spec(s@, true, i128::MIN as int, i128::MAX as int) is None,
        },
{
    match parse_signed_text(
        s,
        true,
        0x7fff_ffff_ffff_ffff_ffff_ffff_ffff_ffffu128,
        0x8000_0000_0000_0000_0000_0000_0000_0000u128,
    ) {
        Some((neg, m)) => {
            if neg {
                if m == 0x8000_0000_0000_0000_0000_0000_0000_0000u128 {
                    Some(i128::MIN)
                } else {
                    Some(0i128 - m as i128)
                }
            } else {
                Some(m as i128)
            }
        },
        None => None,
    }
}

/// Character-wise equality of two string slices.
pub fn str_eq(a: &str, b: &str) -> (r: bool)
    ensures
        r == (a@ == b@),
{
    let n = a.unicode_len();
    let m = b.unicode_len();
    if n != m {
        return false;
    }
    let mut i: usize = 0;
    while i < n
        invariant
            n == a@.len(),
            n == b@.len(),
            i <= n,
            forall|j: int| 0 <= j < i ==> a@[j] == b@[j],
        decreases n - i,
    {
        if a.get_char(i) != b.get_char(i) {
            return false;
        }
        i = i + 1;
    }
    proof {
        assert(a@ =~= b@);
    }
    true
}

/// ASCII lowercase of one character.
pub open spec fn lower_char(c: char) -> char {
    if 'A' <= c && c <= 'Z' {
        ((c as int) + 32) as char
    } else {
        c
    }
}

/// Uppercase of one character as far as it can reach an ASCII letter: ASCII
/// `a..=z`, the long s and the dotless i. Compared against an all-ASCII name
/// that holds none of `FF`, `FI`, `FL`, `SS`, `ST`, this agrees with
/// `str::to_uppercase`.
pub open spec fn upper_char(c: char) -> char {
    if 'a' <= c && c <= 'z' {
        ((c as int) - 32) as char
    } else if c == '\u{17f}' {
        'S'
    } else if c == '\u{131}' {
        'I'
    } else {
        c
    }
}

/// Does `s`, lowercased, equal `target`? `target` is all lowercase ASCII.
pub fn lowercase_eq(s: &str, target: &str) -> (r: bool)
    ensures
        r == (s@.map_values(|c: char| lower_char(c)) == target@),
{
    let n = s.unicode_len();
    let m = target.unicode_len();
    if n != m {
        return false;
    }
    let mut i: usize = 0;
    while i < n
        invariant
            n == s@.len(),
            m == target@.len(),
            n == m,
            i <= n,
            forall|j: int| 0 <= j < i ==> lower_char(s@[j]) == target@[j],
        decreases n - i,
    {
        let c = s.get_char(i);
        let lc = if 'A' <= c && c <= 'Z' {
            char_from_code(c as u32 + 32)
        } else {
            c
        };
        if lc != target.get_char(i) {
            proof {
                assert(s@.map_values(|c: char| lower_char(c))[i as int] != target@[i as int]);
            }
            return false;
        }
        i = i + 1;
    }
    proof {
        assert(s@.map_values(|c: char| lower_char(c)) =~= target@);
    }
    true
}

/// Does `s`, uppercased, equal `target`? `target` is all uppercase ASCII.
pub fn uppercase_eq(s: &str, target: &str) -> (r: bool)
    ensures
        r == (s@.map_values(|c: char| upper_char(c)) == target@),
{
    let n = s.unicode_len();
    let m = target.unicode_len();
    if n != m {
        return false;
    }
    let mut i: usize = 0;
    while i < n
        invariant
            n == s@.len(),
            m == target@.len(),
            n == m,
            i <= n,
            forall|j: int| 0 <= j < i ==> upper_char(s@[j]) == target@[j],
        decreases n - i,
    {
        let c = s.get_char(i);
        let uc = if 'a' <= c && c <= 'z' {
            char_from_code(c as u32 - 32)
        } else if c == '\u{17f}' {
            'S'
        } else if c == '\u{131}' {
            'I'
        } else {
            c
        };
        if uc != target.get_char(i) {
            proof {
                assert(s@.map_values(|c: char| upper_char(c))[i as int] != target@[i as int]);
            }
            return false;
        }
        i = i + 1;
    }
    proof {
        assert(s@.map_values(|c: char| upper_char(c)) =~= target@);
    }
    true
}

/// The ASCII character with code `code`.
fn char_from_code(code: u32) -> (r: char)
    requires
        code < 128,
    ensures
        r == code as char,
{
    let b = code as u8;
    b as char
}

/// The character views of a vector of strings.
pub open spec fn string_views(v: Seq<String>) -> Seq<Seq<char>> {
    v.map_values(|x: String| x@)
}

/// Does `v` hold a string equal to `name`?
pub fn contains_string(v: &Vec<String>, name: &String) -> (r: bool)
    ensures
        r == string_views(v@).contains(name@),
{
    let mut i: usize = 0;
    while i < v.len()
        invariant
            i <= v@.len(),
            forall|j: int| 0 <= j < i ==> v@[j]@ != name@,
        decreases v@.len() - i,
    {
        if v[i] == *name {
            proof {
                assert(string_views(v@)[i as int] == name@);
            }
            return true;
        }
        i = i + 1;
    }
    proof {
        if string_views(v@).contains(name@) {
            let m = string_views(v@);
            let j = choose|j: int| 0 <= j < m.len() && #[trigger] m[j] == name@;
            assert(v@[j]@ == name@);
        }
    }
    false
}

} // verus!
