//! Character-level helpers shared by the protocol reader, the router and the
//! handlers: white space, tokens, trimming and decimal numbers.
//!
//! Every function works on a sequence of characters: `Seq<char>` in
//! contracts, `Vec<char>` or `&str` at run time. A position in a text counts
//! characters, not bytes.

use vstd::prelude::*;

verus! {

/// Whether `c` has the Unicode `White_Space` property.
pub open spec fn is_whitespace(c: char) -> bool {
    let u = c as u32;
    (0x09 <= u && u <= 0x0D) || u == 0x20 || u == 0x85 || u == 0xA0 || u == 0x1680 || (0x2000 <= u
        && u <= 0x200A) || u == 0x2028 || u == 0x2029 || u == 0x202F || u == 0x205F || u == 0x3000
}

/// Whether `c` is one of the ten ASCII decimal digits.
pub open spec fn is_digit(c: char) -> bool {
    '0' <= c && c <= '9'
}

/// The number that the digit `c` stands for.
pub open spec fn digit_value(c: char) -> int {
    c as u32 as int - 48
}

/// Whether every character of `s` is an ASCII decimal digit.
pub open spec fn all_digits(s: Seq<char>) -> bool {
    forall|i: int| 0 <= i < s.len() ==> is_digit(#[trigger] s[i])
}

/// Whether every character of `s` is white space; true of the empty sequence.
pub open spec fn is_blank(s: Seq<char>) -> bool {
    forall|i: int| 0 <= i < s.len() ==> is_whitespace(#[trigger] s[i])
}

/// The value of `s` read as a decimal number, most significant digit first.
pub open spec fn digits_value(s: Seq<char>) -> int
    decreases s.len(),
{
    if s.len() == 0 {
        0
    } else {
        digits_value(s.drop_last()) * 10 + digit_value(s.last())
    }
}

/// What reading `s` as a decimal integer gives.
///
/// A `+` may stand in front, and a `-` too where `signed` is set; at least one
/// digit follows and nothing else. The value has to lie within `min..=max`.
pub open spec fn parse_int(s: Seq<char>, signed: bool, min: int, max: int) -> Option<int> {
    let negative = signed && s.len() > 0 && s[0] == '-';
    let has_sign = s.len() > 0 && (s[0] == '+' || negative);
    let digits = if has_sign {
        s.skip(1)
    } else {
        s
    };
    let value = if negative {
        -digits_value(digits)
    } else {
        digits_value(digits)
    };
    if digits.len() > 0 && all_digits(digits) && min <= value <= max {
        Some(value)
    } else {
        None
    }
}

/// The character that writes the digit `d`.
pub open spec fn digit_char(d: int) -> char {
    if d == 0 {
        '0'
    } else if d == 1 {
        '1'
    } else if d == 2 {
        '2'
    } else if d == 3 {
        '3'
    } else if d == 4 {
        '4'
    } else if d == 5 {
        '5'
    } else if d == 6 {
        '6'
    } else if d == 7 {
        '7'
    } else if d == 8 {
        '8'
    } else {
        '9'
    }
}

/// The decimal digits of `n`, without leading zeros.
pub open spec fn decimal(n: nat) -> Seq<char>
    decreases n,
{
    if n < 10 {
        seq![digit_char(n as int)]
    } else {
        decimal(n / 10).push(digit_char((n % 10) as int))
    }
}

/// The decimal writing of `i`, with a leading `-` where it is negative.
pub open spec fn decimal_int(i: int) -> Seq<char> {
    if i < 0 {
        seq!['-'] + decimal((-i) as nat)
    } else {
        decimal(i as nat)
    }
}

/// The first index at or after `i` whose character is not white space, or the
/// length of `s` if there is none.
pub open spec fn skip_whitespace(s: Seq<char>, i: int) -> int
    decreases s.len() - i,
{
    if 0 <= i < s.len() && is_whitespace(s[i]) {
        skip_whitespace(s, i + 1)
    } else {
        i
    }
}

/// The first index at or after `i` whose character is white space, or the
/// length of `s` if there is none.
pub open spec fn skip_token(s: Seq<char>, i: int) -> int
    decreases s.len() - i,
{
    if 0 <= i < s.len() && !is_whitespace(s[i]) {
        skip_token(s, i + 1)
    } else {
        i
    }
}

/// The first index at or after `from` at which `s` holds `c`, or the length
/// of `s` if there is none.
pub open spec fn find_char(s: Seq<char>, c: char, from: int) -> int
    decreases s.len() - from,
{
    if 0 <= from < s.len() && s[from] != c {
        find_char(s, c, from + 1)
    } else {
        from
    }
}

/// The end of `s` once trailing white space is cut off: the least `j` such
/// that everything from `j` up to `end` is white space.
pub open spec fn trim_end_at(s: Seq<char>, end: int) -> int
    decreases end,
{
    if 0 < end <= s.len() && is_whitespace(s[end - 1]) {
        trim_end_at(s, end - 1)
    } else {
        end
    }
}

/// `s` without its leading and trailing white space.
pub open spec fn trim(s: Seq<char>) -> Seq<char> {
    let start = skip_whitespace(s, 0);
    let end = trim_end_at(s, s.len() as int);
    if start < end {
        s.subrange(start, end)
    } else {
        Seq::empty()
    }
}

/// The lower-case form of an ASCII letter; any other character is itself.
pub open spec fn ascii_lower(c: char) -> char {
    if 'A' <= c && c <= 'Z' {
        ((c as u32 + 32) as u8) as char
    } else {
        c
    }
}

/// Whether `s` begins with `prefix`.
pub open spec fn starts_with(s: Seq<char>, prefix: Seq<char>) -> bool {
    prefix.len() <= s.len() && s.subrange(0, prefix.len() as int) == prefix
}

/// Whether `s` begins with `prefix` once the ASCII letters of both are put in
/// lower case.
pub open spec fn starts_with_ignoring_case(s: Seq<char>, prefix: Seq<char>) -> bool {
    prefix.len() <= s.len() && forall|i: int|
        0 <= i < prefix.len() ==> ascii_lower(#[trigger] s[i]) == ascii_lower(prefix[i])
}

/// Tests whether `c` has the Unicode `White_Space` property.
pub fn char_is_whitespace(c: char) -> (r: bool)
    ensures
        r == is_whitespace(c),
{
    let u: u32 = c as u32;
    (0x09 <= u && u <= 0x0D) || u == 0x20 || u == 0x85 || u == 0xA0 || u == 0x1680 || (0x2000 <= u
        && u <= 0x200A) || u == 0x2028 || u == 0x2029 || u == 0x202F || u == 0x205F || u == 0x3000
}

/// Tests whether `c` is an ASCII decimal digit.
pub fn char_is_digit(c: char) -> (r: bool)
    ensures
        r == is_digit(c),
{
    '0' <= c && c <= '9'
}

/// Puts an ASCII letter in lower case and leaves any other character alone.
pub fn char_ascii_lower(c: char) -> (r: char)
    ensures
        r == ascii_lower(c),
{
    if 'A' <= c && c <= 'Z' {
        ((c as u32 + 32) as u8) as char
    } else {
        c
    }
}

/// The characters of `s`, in order.
pub fn chars_of(s: &str) -> (r: Vec<char>)
    ensures
        r@ == s@,
{
    let mut out: Vec<char> = Vec::new();
    for c in it: s.chars()
        invariant
            out@ == it.seq().take(it.index()),
            it.seq() == s@,
    {
        out.push(c);
    }
    out
}

/// Tests whether two strings hold the same characters.
pub fn text_eq(a: &str, b: &str) -> (r: bool)
    ensures
        r == (a@ == b@),
{
    let x = chars_of(a);
    let y = chars_of(b);
    chars_eq(&x, &y)
}

/// Tests whether two vectors hold the same characters.
pub fn chars_eq(a: &Vec<char>, b: &Vec<char>) -> (r: bool)
    ensures
        r == (a@ == b@),
{
    if a.len() != b.len() {
        return false;
    }
    let mut i: usize = 0;
    while i < a.len()
        invariant
            i <= a.len(),
            a.len() == b.len(),
            forall|k: int| 0 <= k < i ==> a@[k] == b@[k],
        decreases a.len() - i,
    {
        if a[i] != b[i] {
            return false;
        }
        i += 1;
    }
    assert(a@ =~= b@);
    true
}

/// Tests whether every character of `s` is white space.
pub fn blank(s: &str) -> (r: bool)
    ensures
        r == is_blank(s@),
{
    let cs = chars_of(s);
    let mut i: usize = 0;
    while i < cs.len()
        invariant
            i <= cs.len(),
            cs@ == s@,
            forall|k: int| 0 <= k < i ==> is_whitespace(#[trigger] cs@[k]),
        decreases cs.len() - i,
    {
        if !char_is_whitespace(cs[i]) {
            return false;
        }
        i += 1;
    }
    true
}

/// Tests whether `s` begins with `prefix`.
pub fn has_prefix(s: &Vec<char>, prefix: &Vec<char>) -> (r: bool)
    ensures
        r == starts_with(s@, prefix@),
{
    if prefix.len() > s.len() {
        return false;
    }
    let mut i: usize = 0;
    while i < prefix.len()
        invariant
            i <= prefix.len() <= s.len(),
            forall|k: int| 0 <= k < i ==> s@[k] == prefix@[k],
        decreases prefix.len() - i,
    {
        if s[i] != prefix[i] {
            assert(s@.subrange(0, prefix@.len() as int)[i as int] != prefix@[i as int]);
            return false;
        }
        i += 1;
    }
    assert(s@.subrange(0, prefix@.len() as int) =~= prefix@);
    true
}

/// Tests whether `s` begins with `prefix`, ASCII letters compared without
/// regard to case.
pub fn has_prefix_ignoring_case(s: &Vec<char>, prefix: &Vec<char>) -> (r: bool)
    ensures
        r == starts_with_ignoring_case(s@, prefix@),
{
    if prefix.len() > s.len() {
        return false;
    }
    let mut i: usize = 0;
    while i < prefix.len()
        invariant
            i <= prefix.len() <= s.len(),
            forall|k: int| 0 <= k < i ==> ascii_lower(#[trigger] s@[k]) == ascii_lower(prefix@[k]),
        decreases prefix.len() - i,
    {
        if char_ascii_lower(s[i]) != char_ascii_lower(prefix[i]) {
            return false;
        }
        i += 1;
    }
    true
}

/// Finds where the white space that starts at `from` ends.
pub fn scan_whitespace(s: &Vec<char>, from: usize) -> (r: usize)
    requires
        from <= s.len(),
    ensures
        r == skip_whitespace(s@, from as int),
        from <= r <= s.len(),
{
    let mut i: usize = from;
    while i < s.len() && char_is_whitespace(s[i])
        invariant
            from <= i <= s.len(),
            skip_whitespace(s@, from as int) == skip_whitespace(s@, i as int),
        decreases s.len() - i,
    {
        i += 1;
    }
    i
}

/// Finds where the run of characters other than white space that starts at
/// `from` ends.
pub fn scan_token(s: &Vec<char>, from: usize) -> (r: usize)
    requires
        from <= s.len(),
    ensures
        r == skip_token(s@, from as int),
        from <= r <= s.len(),
{
    let mut i: usize = from;
    while i < s.len() && !char_is_whitespace(s[i])
        invariant
            from <= i <= s.len(),
            skip_token(s@, from as int) == skip_token(s@, i as int),
        decreases s.len() - i,
    {
        i += 1;
    }
    i
}

/// Finds the first `c` in `s` at or after `from`.
pub fn scan_for(s: &Vec<char>, c: char, from: usize) -> (r: usize)
    requires
        from <= s.len(),
    ensures
        r == find_char(s@, c, from as int),
        from <= r <= s.len(),
{
    let mut i: usize = from;
    while i < s.len() && s[i] != c
        invariant
            from <= i <= s.len(),
            find_char(s@, c, from as int) == find_char(s@, c, i as int),
        decreases s.len() - i,
    {
        i += 1;
    }
    i
}

/// Finds where `s`, cut at `end`, stops once its trailing white space is left
/// out.
pub fn scan_trailing_whitespace(s: &Vec<char>, end: usize) -> (r: usize)
    requires
        end <= s.len(),
    ensures
        r == trim_end_at(s@, end as int),
        r <= end,
{
    let mut j: usize = end;
    while j > 0 && char_is_whitespace(s[j - 1])
        invariant
            j <= end <= s.len(),
            trim_end_at(s@, end as int) == trim_end_at(s@, j as int),
        decreases j,
    {
        j -= 1;
    }
    j
}

/// A copy of the characters of `s` from `from` up to `to`.
pub fn copy_range(s: &Vec<char>, from: usize, to: usize) -> (r: Vec<char>)
    requires
        from <= to <= s.len(),
    ensures
        r@ == s@.subrange(from as int, to as int),
{
    let mut out: Vec<char> = Vec::new();
    let mut i: usize = from;
    while i < to
        invariant
            from <= i <= to <= s.len(),
            out@ == s@.subrange(from as int, i as int),
        decreases to - i,
    {
        out.push(s[i]);
        assert(s@.subrange(from as int, i as int).push(s@[i as int]) =~= s@.subrange(
            from as int,
            i + 1,
        ));
        i += 1;
    }
    out
}

/// `s` without its leading and trailing white space.
pub fn trimmed(s: &Vec<char>) -> (r: Vec<char>)
    ensures
        r@ == trim(s@),
{
    let start = scan_whitespace(s, 0);
    let end = scan_trailing_whitespace(s, s.len());
    if start < end {
        copy_range(s, start, end)
    } else {
        Vec::new()
    }
}

/// A prefix of a digit string is worth no more than the whole.
pub proof fn lemma_digits_value_prefix(s: Seq<char>, k: int)
    requires
        all_digits(s),
        0 <= k <= s.len(),
    ensures
        0 <= digits_value(s.take(k)) <= digits_value(s),
    decreases s.len(),
{
    if s.len() == 0 {
        assert(s.take(k) =~= s);
    } else if k == s.len() {
        assert(s.take(k) =~= s);
        assert(is_digit(s.last()));
        assert(all_digits(s.drop_last()));
        lemma_digits_value_prefix(s.drop_last(), k - 1);
    } else {
        assert(is_digit(s.last()));
        assert(all_digits(s.drop_last()));
        assert(s.drop_last().take(k) =~= s.take(k));
        lemma_digits_value_prefix(s.drop_last(), k);
    }
}

/// Reads `s` as a run of decimal digits worth at most `limit`.
pub fn parse_digits(s: &Vec<char>, limit: u64) -> (r: Option<u64>)
    ensures
        r matches Some(v) ==> s@.len() > 0 && all_digits(s@) && v == digits_value(s@) && v <= limit,
        r is None ==> !(s@.len() > 0 && all_digits(s@) && digits_value(s@) <= limit),
{
    if s.len() == 0 {
        return None;
    }
    let mut acc: u64 = 0;
    let mut i: usize = 0;
    while i < s.len()
        invariant
            i <= s.len(),
            all_digits(s@.take(i as int)),
            acc == digits_value(s@.take(i as int)),
            acc <= limit,
        decreases s.len() - i,
    {
        let c = s[i];
        if !char_is_digit(c) {
            return None;
        }
        let d: u64 = (c as u32 - 48) as u64;
        let next: u128 = acc as u128 * 10 + d as u128;
        proof {
            let t = s@.take(i + 1);
            assert(t.drop_last() =~= s@.take(i as int));
            assert(t.last() == c);
            assert(all_digits(t));
            assert(next == digits_value(t));
        }
        if next > limit as u128 {
            proof {
                if all_digits(s@) {
                    lemma_digits_value_prefix(s@, i + 1);
                }
            }
            return None;
        }
        acc = next as u64;
        i += 1;
    }
    assert(s@.take(i as int) =~= s@);
    Some(acc)
}

/// Reads `s` as a decimal integer that fits 64 bits with a sign.
pub fn parse_i64(s: &Vec<char>) -> (r: Option<i64>)
    ensures
        r matches Some(v) ==> parse_int(s@, true, i64::MIN as int, i64::MAX as int) == Some(
            v as int,
        ),
        r is None ==> parse_int(s@, true, i64::MIN as int, i64::MAX as int) is None,
{
    if s.len() == 0 {
        return None;
    }
    let first = s[0];
    if first == '-' {
        let digits = copy_range(s, 1, s.len());
        assert(digits@ == s@.skip(1));
        match parse_digits(&digits, 0x8000_0000_0000_0000u64) {
            Some(v) => {
                if v == 0x8000_0000_0000_0000u64 {
                    Some(i64::MIN)
                } else {
                    Some(-(v as i64))
                }
            },
            None => None,
        }
    } else if first == '+' {
        let digits = copy_range(s, 1, s.len());
        assert(digits@ == s@.skip(1));
        match parse_digits(&digits, 0x7fff_ffff_ffff_ffffu64) {
            Some(v) => Some(v as i64),
            None => None,
        }
    } else {
        match parse_digits(s, 0x7fff_ffff_ffff_ffffu64) {
            Some(v) => Some(v as i64),
            None => None,
        }
    }
}

/// Reads `s` as a decimal integer without a `-` that is at most `limit`.
pub fn parse_unsigned(s: &Vec<char>, limit: u64) -> (r: Option<u64>)
    ensures
        r matches Some(v) ==> parse_int(s@, false, 0, limit as int) == Some(v as int),
        r is None ==> parse_int(s@, false, 0, limit as int) is None,
{
    if s.len() == 0 {
        return None;
    }
    if s[0] == '+' {
        let digits = copy_range(s, 1, s.len());
        assert(digits@ == s@.skip(1));
        let r = parse_digits(&digits, limit);
        proof {
            if all_digits(digits@) {
                lemma_digits_value_prefix(digits@, 0);
            }
        }
        r
    } else {
        let r = parse_digits(s, limit);
        proof {
            if all_digits(s@) {
                lemma_digits_value_prefix(s@, 0);
            }
        }
        r
    }
}

/// Appends the digit `d` to `out`.
fn push_digit(out: &mut String, d: u8)
    requires
        d < 10,
    ensures
        final(out)@ == old(out)@.push(digit_char(d as int)),
{
    proof {
        reveal_strlit("0");
        reveal_strlit("1");
        reveal_strlit("2");
        reveal_strlit("3");
        reveal_strlit("4");
        reveal_strlit("5");
        reveal_strlit("6");
        reveal_strlit("7");
        reveal_strlit("8");
        reveal_strlit("9");
    }
    let ghost before = out@;
    let digit: &str = if d == 0 {
        "0"
    } else if d == 1 {
        "1"
    } else if d == 2 {
        "2"
    } else if d == 3 {
        "3"
    } else if d == 4 {
        "4"
    } else if d == 5 {
        "5"
    } else if d == 6 {
        "6"
    } else if d == 7 {
        "7"
    } else if d == 8 {
        "8"
    } else {
        "9"
    };
    assert(digit@ =~= seq![digit_char(d as int)]);
    out.append(digit);
    assert(out@ =~= before.push(digit_char(d as int)));
}

/// Appends the decimal writing of `n` to `out`.
pub fn push_decimal(out: &mut String, n: u64)
    ensures
        final(out)@ == old(out)@ + decimal(n as nat),
    decreases n,
{
    let ghost before = out@;
    if n >= 10 {
        push_decimal(out, n / 10);
    }
    push_digit(out, (n % 10) as u8);
    assert(out@ =~= before + decimal(n as nat));
}

/// Appends the decimal writing of `i` to `out`, with a `-` in front of a
/// negative number.
pub fn push_decimal_int(out: &mut String, i: i64)
    ensures
        final(out)@ == old(out)@ + decimal_int(i as int),
{
    let ghost before = out@;
    if i < 0 {
        proof {
            reveal_strlit("-");
        }
        out.append("-");
        let magnitude: u64 = if i == i64::MIN {
            0x8000_0000_0000_0000u64
        } else {
            (-i) as u64
        };
        push_decimal(out, magnitude);
        assert(out@ =~= before + decimal_int(i as int));
    } else {
        push_decimal(out, i as u64);
    }
}

/// The decimal writing of a number is made of digits, at least one, and is
/// worth the number.
pub proof fn lemma_decimal_is_worth_its_number(n: nat)
    ensures
        decimal(n).len() >= 1,
        all_digits(decimal(n)),
        digits_value(decimal(n)) == n,
    decreases n,
{
    if n >= 10 {
        lemma_decimal_is_worth_its_number(n / 10);
        let front = decimal(n / 10);
        let whole = decimal(n);
        assert(whole.drop_last() =~= front);
        assert(whole.last() == digit_char((n % 10) as int));
        assert forall|i: int| 0 <= i < whole.len() implies is_digit(#[trigger] whole[i]) by {
            if i < front.len() {
                assert(whole[i] == front[i]);
            }
        }
        lemma_digit_char((n % 10) as int);
        assert(digits_value(whole) == digits_value(front) * 10 + digit_value(whole.last()));
    } else {
        let whole = decimal(n);
        assert(whole.drop_last() =~= Seq::<char>::empty());
        assert(whole.last() == digit_char(n as int));
        lemma_digit_char(n as int);
        assert(digits_value(whole.drop_last()) == 0);
        assert(digits_value(whole) == digits_value(whole.drop_last()) * 10 + digit_value(
            whole.last(),
        ));
    }
}

/// The character that writes a digit is a digit and stands for it.
proof fn lemma_digit_char(d: int)
    requires
        0 <= d <= 9,
    ensures
        is_digit(digit_char(d)),
        digit_value(digit_char(d)) == d,
{
}

/// What is written is read back: reading the decimal writing of an integer
/// gives the integer, wherever it lies within the bounds of the reading, and
/// nothing where it does not.
pub proof fn law_decimal_is_read_back(i: int, min: int, max: int)
    ensures
        parse_int(decimal_int(i), true, min, max) == if min <= i <= max {
            Some(i)
        } else {
            None
        },
        i >= 0 ==> parse_int(decimal_int(i), false, min, max) == if min <= i <= max {
            Some(i)
        } else {
            None
        },
{
    if i < 0 {
        let digits = decimal((-i) as nat);
        lemma_decimal_is_worth_its_number((-i) as nat);
        assert(decimal_int(i).skip(1) =~= digits);
    } else {
        lemma_decimal_is_worth_its_number(i as nat);
        assert(is_digit(decimal(i as nat)[0]));
    }
}

/// What trimming leaves is a range of the text with nothing but white space
/// before and after it, and it neither begins nor ends with white space.
pub proof fn law_trim_cuts_white_space(s: Seq<char>)
    ensures
        ({
            let start = skip_whitespace(s, 0);
            let end = if trim_end_at(s, s.len() as int) < start {
                start
            } else {
                trim_end_at(s, s.len() as int)
            };
            &&& 0 <= start <= end <= s.len()
            &&& trim(s) == s.subrange(start, end)
            &&& is_blank(s.subrange(0, start))
            &&& is_blank(s.subrange(end, s.len() as int))
            &&& trim(s).len() > 0 ==> !is_whitespace(trim(s).first()) && !is_whitespace(
                trim(s).last(),
            )
        }),
        is_blank(s) <==> trim(s).len() == 0,
{
    lemma_leading_white_space(s, 0);
    lemma_trailing_white_space(s, s.len() as int);
    let start = skip_whitespace(s, 0);
    let end = trim_end_at(s, s.len() as int);
    if start < end {
        assert(trim(s).first() == s[start]);
        assert(trim(s).last() == s[end - 1]);
        assert(!is_blank(s)) by {
            assert(!is_whitespace(s[start]));
        }
    } else {
        assert(s.subrange(start, start) =~= Seq::<char>::empty());
        assert(is_blank(s)) by {
            assert forall|i: int| 0 <= i < s.len() implies is_whitespace(#[trigger] s[i]) by {
                if i < start {
                    assert(s.subrange(0, start)[i] == s[i]);
                } else {
                    assert(s.subrange(end, s.len() as int)[i - end] == s[i]);
                }
            }
        }
        assert(is_blank(s.subrange(start, s.len() as int))) by {
            assert forall|i: int| 0 <= i < s.len() - start implies is_whitespace(
                #[trigger] s.subrange(start, s.len() as int)[i],
            ) by {
                assert(s.subrange(end, s.len() as int)[i + start - end] == s[i + start]);
            }
        }
    }
}

/// The white space that a scan skips is white space, and the scan stops
/// within the text, at a character that is none if it stops before the end.
pub proof fn lemma_leading_white_space(s: Seq<char>, i: int)
    requires
        0 <= i <= s.len(),
    ensures
        i <= skip_whitespace(s, i) <= s.len(),
        is_blank(s.subrange(i, skip_whitespace(s, i))),
        skip_whitespace(s, i) < s.len() ==> !is_whitespace(s[skip_whitespace(s, i)]),
    decreases s.len() - i,
{
    if i < s.len() && is_whitespace(s[i]) {
        lemma_leading_white_space(s, i + 1);
        let end = skip_whitespace(s, i);
        assert forall|k: int| 0 <= k < end - i implies is_whitespace(
            #[trigger] s.subrange(i, end)[k],
        ) by {
            if k > 0 {
                assert(s.subrange(i + 1, end)[k - 1] == s[i + k]);
            }
        }
    }
}

/// Whether no character of `s` is white space.
pub open spec fn is_solid(s: Seq<char>) -> bool {
    forall|i: int| 0 <= i < s.len() ==> !is_whitespace(#[trigger] s[i])
}

/// The run that a scan for white space passes holds no white space, and the
/// scan stops within the text, at white space if it stops before the end.
pub proof fn lemma_token(s: Seq<char>, i: int)
    requires
        0 <= i <= s.len(),
    ensures
        i <= skip_token(s, i) <= s.len(),
        is_solid(s.subrange(i, skip_token(s, i))),
        skip_token(s, i) < s.len() ==> is_whitespace(s[skip_token(s, i)]),
        i < s.len() && !is_whitespace(s[i]) ==> i < skip_token(s, i),
    decreases s.len() - i,
{
    if i < s.len() && !is_whitespace(s[i]) {
        lemma_token(s, i + 1);
        let end = skip_token(s, i);
        assert forall|k: int| 0 <= k < end - i implies !is_whitespace(
            #[trigger] s.subrange(i, end)[k],
        ) by {
            if k > 0 {
                assert(s.subrange(i + 1, end)[k - 1] == s[i + k]);
            }
        }
    }
}

/// The white space that is cut off the end is white space, and what is left
/// does not end with white space.
pub proof fn lemma_trailing_white_space(s: Seq<char>, end: int)
    requires
        0 <= end <= s.len(),
    ensures
        0 <= trim_end_at(s, end) <= end,
        is_blank(s.subrange(trim_end_at(s, end), end)),
        trim_end_at(s, end) > 0 ==> !is_whitespace(s[trim_end_at(s, end) - 1]),
    decreases end,
{
    if end > 0 && is_whitespace(s[end - 1]) {
        lemma_trailing_white_space(s, end - 1);
        let start = trim_end_at(s, end);
        assert forall|k: int| 0 <= k < end - start implies is_whitespace(
            #[trigger] s.subrange(start, end)[k],
        ) by {
            if k < end - 1 - start {
                assert(s.subrange(start, end - 1)[k] == s[start + k]);
            }
        }
    }
}

} // verus!
