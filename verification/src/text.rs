//! Reading command text: white space, decimal numbers and separated lists.

use vstd::prelude::*;
use vstd::string::*;

verus! {

/// Whether `c` is white space: a character with Unicode's `White_Space`
/// property.
pub open spec fn is_space(c: char) -> bool {
    let n = c as u32;
    ||| 0x09 <= n <= 0x0D
    ||| n == 0x20
    ||| n == 0x85
    ||| n == 0xA0
    ||| n == 0x1680
    ||| 0x2000 <= n <= 0x200A
    ||| n == 0x2028
    ||| n == 0x2029
    ||| n == 0x202F
    ||| n == 0x205F
    ||| n == 0x3000
}

/// The first position at or after `from` that holds no white space, or the
/// length of `s` where only white space follows.
pub open spec fn skip_spaces(s: Seq<char>, from: int) -> int
    decreases s.len() - from,
{
    if 0 <= from < s.len() && is_space(s[from]) {
        skip_spaces(s, from + 1)
    } else {
        from
    }
}

/// The end of `s` without its trailing white space, not going below `floor`.
pub open spec fn drop_spaces(s: Seq<char>, floor: int, end: int) -> int
    decreases end,
{
    if 0 <= floor < end <= s.len() && is_space(s[end - 1]) {
        drop_spaces(s, floor, end - 1)
    } else {
        end
    }
}

/// `s` without leading and trailing white space.
pub open spec fn trimmed(s: Seq<char>) -> Seq<char> {
    let start = skip_spaces(s, 0);
    s.subrange(start, drop_spaces(s, start, s.len() as int))
}

/// The value of a decimal digit.
pub open spec fn digit_value(c: char) -> Option<nat> {
    if '0' <= c <= '9' {
        Some((c as u32 - '0' as u32) as nat)
    } else {
        None
    }
}

/// The number that `s` writes in decimal digits: 0 for no digits, `None`
/// where a character is no digit.
pub open spec fn digits_value(s: Seq<char>) -> Option<nat>
    decreases s.len(),
{
    if s.len() == 0 {
        Some(0)
    } else {
        match (digits_value(s.drop_last()), digit_value(s.last())) {
            (Some(high), Some(low)) => Some(10 * high + low),
            _ => None,
        }
    }
}

/// The number that `s` writes: an optional `+` and then one decimal digit or
/// more, nothing before and nothing after.
pub open spec fn unsigned_decimal(s: Seq<char>) -> Option<nat> {
    let digits = if s.len() > 0 && s[0] == '+' {
        s.drop_first()
    } else {
        s
    };
    if digits.len() == 0 {
        None
    } else {
        digits_value(digits)
    }
}

/// The number that `s` writes, where it is no more than `limit`.
pub open spec fn decimal_up_to(s: Seq<char>, limit: nat) -> Option<nat> {
    match unsigned_decimal(s) {
        Some(value) if value <= limit => Some(value),
        _ => None,
    }
}

/// The pieces of `s` between the occurrences of `sep`: one piece more than
/// there are separators, each possibly empty.
pub open spec fn split_on(s: Seq<char>, sep: char) -> Seq<Seq<char>>
    decreases s.len(),
{
    if s.len() == 0 {
        seq![Seq::<char>::empty()]
    } else {
        let before = split_on(s.drop_last(), sep);
        if s.last() == sep {
            before.push(Seq::<char>::empty())
        } else {
            before.drop_last().push(before.last().push(s.last()))
        }
    }
}

/// A split has at least one piece.
pub proof fn lemma_split_nonempty(s: Seq<char>, sep: char)
    ensures
        split_on(s, sep).len() >= 1,
    decreases s.len(),
{
    if s.len() > 0 {
        lemma_split_nonempty(s.drop_last(), sep);
    }
}

/// Reading on past position `i` keeps the pieces that a separator has closed.
pub proof fn lemma_split_keeps_closed(s: Seq<char>, sep: char, i: int, j: int)
    requires
        0 <= i <= j <= s.len(),
    ensures
        split_on(s.subrange(0, j), sep).len() >= split_on(s.subrange(0, i), sep).len(),
        split_on(s.subrange(0, j), sep).subrange(0, split_on(s.subrange(0, i), sep).len() - 1)
            == split_on(s.subrange(0, i), sep).drop_last(),
    decreases j - i,
{
    lemma_split_nonempty(s.subrange(0, i), sep);
    if i == j {
        let pieces = split_on(s.subrange(0, i), sep);
        assert(pieces.subrange(0, pieces.len() - 1) == pieces.drop_last());
    } else {
        lemma_split_keeps_closed(s, sep, i, j - 1);
        lemma_split_nonempty(s.subrange(0, j - 1), sep);
        assert(s.subrange(0, j).drop_last() == s.subrange(0, j - 1));
        let shorter = split_on(s.subrange(0, j - 1), sep);
        let longer = split_on(s.subrange(0, j), sep);
        let kept = split_on(s.subrange(0, i), sep).len() - 1;
        assert(longer.subrange(0, kept) == shorter.subrange(0, kept));
    }
}

/// Whether `c` is white space.
pub fn is_space_char(c: char) -> (space: bool)
    ensures
        space == is_space(c),
{
    let n: u32 = c as u32;
    (0x09 <= n && n <= 0x0D) || n == 0x20 || n == 0x85 || n == 0xA0 || n == 0x1680 || (0x2000 <= n
        && n <= 0x200A) || n == 0x2028 || n == 0x2029 || n == 0x202F || n == 0x205F || n == 0x3000
}

/// The characters of `s`.
pub fn chars_of(s: &str) -> (chars: Vec<char>)
    ensures
        chars@ == s@,
{
    let n = s.unicode_len();
    let mut chars: Vec<char> = Vec::new();
    let mut i: usize = 0;
    while i < n
        invariant
            n == s@.len(),
            i <= n,
            chars@ == s@.subrange(0, i as int),
        decreases n - i,
    {
        chars.push(s.get_char(i));
        i += 1;
    }
    chars
}

/// The bounds of `chars[from..to]` without its leading and trailing white
/// space.
pub fn trim_bounds(chars: &Vec<char>, from: usize, to: usize) -> (bounds: (usize, usize))
    requires
        from <= to <= chars.len(),
    ensures
        from <= bounds.0 <= bounds.1 <= to,
        chars@.subrange(bounds.0 as int, bounds.1 as int) == trimmed(
            chars@.subrange(from as int, to as int),
        ),
{
    let ghost piece = chars@.subrange(from as int, to as int);
    let mut start: usize = from;
    while start < to && is_space_char(chars[start])
        invariant
            from <= start <= to <= chars.len(),
            piece == chars@.subrange(from as int, to as int),
            skip_spaces(piece, 0) == skip_spaces(piece, start - from),
        decreases to - start,
    {
        start += 1;
    }
    let mut end: usize = to;
    while start < end && is_space_char(chars[end - 1])
        invariant
            from <= start <= end <= to <= chars.len(),
            piece == chars@.subrange(from as int, to as int),
            drop_spaces(piece, start - from, piece.len() as int) == drop_spaces(
                piece,
                start - from,
                end - from,
            ),
        decreases end - start,
    {
        end -= 1;
    }
    assert(chars@.subrange(start as int, end as int) == piece.subrange(start - from, end - from));
    (start, end)
}

/// The end of `chars` without its trailing white space.
pub fn trimmed_end(chars: &Vec<char>) -> (end: usize)
    ensures
        end == drop_spaces(chars@, 0, chars@.len() as int),
        end <= chars.len(),
{
    let mut end: usize = chars.len();
    while end > 0 && is_space_char(chars[end - 1])
        invariant
            end <= chars.len(),
            drop_spaces(chars@, 0, chars@.len() as int) == drop_spaces(chars@, 0, end as int),
        decreases end,
    {
        end -= 1;
    }
    end
}

/// A spelled number never shrinks as more digits follow.
proof fn lemma_digits_grow(s: Seq<char>, i: int)
    requires
        0 <= i <= s.len(),
        digits_value(s) is Some,
    ensures
        digits_value(s.subrange(0, i)) is Some,
        digits_value(s.subrange(0, i))->0 <= digits_value(s)->0,
    decreases s.len() - i,
{
    if i == s.len() {
        assert(s.subrange(0, i) == s);
    } else {
        lemma_digits_grow(s.drop_last(), i);
        assert(s.drop_last().subrange(0, i) == s.subrange(0, i));
    }
}

/// Reads `chars[from..to]` as a number no greater than `limit`.
pub fn parse_decimal(chars: &Vec<char>, from: usize, to: usize, limit: u64) -> (value: Option<u64>)
    requires
        from <= to <= chars.len(),
    ensures
        value is Some <==> decimal_up_to(chars@.subrange(from as int, to as int), limit as nat)
            is Some,
        value matches Some(v) ==> decimal_up_to(
            chars@.subrange(from as int, to as int),
            limit as nat,
        ) == Some(v as nat),
{
    let ghost piece = chars@.subrange(from as int, to as int);
    let first: usize = if from < to && chars[from] == '+' {
        from + 1
    } else {
        from
    };
    let ghost digits = chars@.subrange(first as int, to as int);
    assert(digits == if piece.len() > 0 && piece[0] == '+' {
        piece.drop_first()
    } else {
        piece
    });
    if first == to {
        return None;
    }
    assert(unsigned_decimal(piece) == digits_value(digits));
    let mut total: u128 = 0;
    let mut i: usize = first;
    while i < to
        invariant
            first <= i <= to <= chars.len(),
            digits == chars@.subrange(first as int, to as int),
            piece == chars@.subrange(from as int, to as int),
            unsigned_decimal(piece) == digits_value(digits),
            digits_value(digits.subrange(0, i - first)) == Some(total as nat),
            total <= limit,
        decreases to - i,
    {
        let c = chars[i];
        let ghost read = digits.subrange(0, i - first + 1);
        assert(read.drop_last() == digits.subrange(0, i - first));
        assert(read.last() == c);
        if !('0' <= c && c <= '9') {
            proof {
                if digits_value(digits) is Some {
                    lemma_digits_grow(digits, i - first + 1);
                }
            }
            return None;
        }
        let low: u128 = (c as u32 - '0' as u32) as u128;
        let next: u128 = total * 10 + low;
        if next > limit as u128 {
            proof {
                if digits_value(digits) is Some {
                    lemma_digits_grow(digits, i - first + 1);
                }
            }
            return None;
        }
        total = next;
        i += 1;
    }
    assert(digits.subrange(0, to - first) == digits);
    Some(total as u64)
}

/// Reads `text` as a number of at most 64 bits.
pub fn read_u64(text: &str) -> (value: Option<u64>)
    ensures
        value is Some <==> decimal_up_to(text@, u64::MAX as nat) is Some,
        value matches Some(v) ==> decimal_up_to(text@, u64::MAX as nat) == Some(v as nat),
{
    let chars = chars_of(text);
    assert(chars@.subrange(0, chars.len() as int) == text@);
    parse_decimal(&chars, 0, chars.len(), u64::MAX)
}

/// The decimal digit for `d`, which is below ten.
pub open spec fn digit_char(d: nat) -> char {
    (48 + d) as char
}

/// `n` in decimal digits, without leading zeros.
pub open spec fn natural_text(n: nat) -> Seq<char>
    decreases n,
{
    if n < 10 {
        seq![digit_char(n)]
    } else {
        natural_text(n / 10).push(digit_char(n % 10))
    }
}

/// `n` in decimal digits, with a minus sign where it is negative.
pub open spec fn integer_text(n: int) -> Seq<char> {
    if n < 0 {
        seq!['-'] + natural_text((-n) as nat)
    } else {
        natural_text(n as nat)
    }
}

fn digit_str(d: u64) -> (text: &'static str)
    requires
        d < 10,
    ensures
        text@ == seq![digit_char(d as nat)],
{
    proof {
        reveal_strlit("0");
        reveal_strlit("1");
        reveal_strlit("2");
        reveal_strlit("3");
        reveal_strlit("4");
        reveal_strlit("5");
        reveal_strlit("6");
        reveal_strlit("7");
        reveal_strlit("8");
        reveal_strlit("9");
    }
    let text = if d == 0 {
        "0"
    } else if d == 1 {
        "1"
    } else if d == 2 {
        "2"
    } else if d == 3 {
        "3"
    } else if d == 4 {
        "4"
    } else if d == 5 {
        "5"
    } else if d == 6 {
        "6"
    } else if d == 7 {
        "7"
    } else if d == 8 {
        "8"
    } else {
        "9"
    };
    assert(text@ =~= seq![digit_char(d as nat)]);
    text
}

/// Writes `n` in decimal digits.
pub fn natural_string(n: u64) -> (text: String)
    ensures
        text@ == natural_text(n as nat),
    decreases n,
{
    if n < 10 {
        String::from_str(digit_str(n))
    } else {
        let mut text = natural_string(n / 10);
        text.append(digit_str(n % 10));
        assert(text@ =~= natural_text(n as nat / 10).push(digit_char(n as nat % 10)));
        text
    }
}

/// Writes `n` in decimal digits, with a minus sign where it is negative.
pub fn integer_string(n: i64) -> (text: String)
    ensures
        text@ == integer_text(n as int),
{
    if n < 0 {
        let size: u64 = (-(n + 1)) as u64 + 1;
        proof {
            reveal_strlit("-");
        }
        let mut text = String::from_str("-");
        text.append(natural_string(size).as_str());
        assert(text@ =~= seq!['-'] + natural_text((-n) as nat));
        text
    } else {
        natural_string(n as u64)
    }
}

} // verus!
