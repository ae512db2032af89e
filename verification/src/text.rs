//! Numbers as decimal text, and words in a text.

use vstd::prelude::*;
use vstd::string::StrSliceExecFns;
use vstd::string::StringExecFns;

verus! {

/// The character of the digit `d`.
pub open spec fn digit(d: int) -> char {
    if d == 0 {
        '0'
    } else if d == 1 {
        '1'
    } else if d == 2 {
        '2'
    } else if d == 3 {
        '3'
    } else if d == 4 {
        '4'
    } else if d == 5 {
        '5'
    } else if d == 6 {
        '6'
    } else if d == 7 {
        '7'
    } else if d == 8 {
        '8'
    } else {
        '9'
    }
}

/// The decimal digits of `n`, without leading zeros.
pub open spec fn decimal(n: nat) -> Seq<char>
    decreases n,
{
    if n < 10 {
        seq![digit(n as int)]
    } else {
        decimal(n / 10).push(digit((n % 10) as int))
    }
}

/// The text of one digit.
fn digit_text(d: u128) -> (r: &'static str)
    requires
        d < 10,
    ensures
        r@ == seq![digit(d as int)],
{
    proof {
        reveal_strlit("0");
        reveal_strlit("1");
        reveal_strlit("2");
        reveal_strlit("3");
        reveal_strlit("4");
        reveal_strlit("5");
        reveal_strlit("6");
        reveal_strlit("7");
        reveal_strlit("8");
        reveal_strlit("9");
    }
    let r: &'static str = if d == 0 {
        "0"
    } else if d == 1 {
        "1"
    } else if d == 2 {
        "2"
    } else if d == 3 {
        "3"
    } else if d == 4 {
        "4"
    } else if d == 5 {
        "5"
    } else if d == 6 {
        "6"
    } else if d == 7 {
        "7"
    } else if d == 8 {
        "8"
    } else {
        "9"
    };
    assert(r@ =~= seq![digit(d as int)]);
    r
}

/// Writes `n` in decimal.
pub fn to_decimal(n: u128) -> (r: String)
    ensures
        r@ == decimal(n as nat),
    decreases n,
{
    if n < 10 {
        digit_text(n).to_owned()
    } else {
        let mut r: String = to_decimal(n / 10);
        r.append(digit_text(n % 10));
        assert(r@ =~= decimal((n / 10) as nat).push(digit((n % 10) as int)));
        r
    }
}

/// A whole number of hundredths as a decimal fraction: the whole part, and
/// after a point the hundredths without a zero at the end, if there are
/// any.
pub open spec fn hundredths(n: nat) -> Seq<char> {
    let part = n % 100;
    decimal(n / 100) + if part == 0 {
        Seq::<char>::empty()
    } else if part % 10 == 0 {
        seq!['.', digit((part / 10) as int)]
    } else {
        seq!['.', digit((part / 10) as int), digit((part % 10) as int)]
    }
}

/// A whole number of thousandths as a decimal fraction: the whole part,
/// and after a point the thousandths without zeros at the end, if there
/// are any.
pub open spec fn thousandths(n: nat) -> Seq<char> {
    let part = n % 1000;
    decimal(n / 1000) + if part == 0 {
        Seq::<char>::empty()
    } else if part % 100 == 0 {
        seq!['.', digit((part / 100) as int)]
    } else if part % 10 == 0 {
        seq!['.', digit((part / 100) as int), digit((part / 10 % 10) as int)]
    } else {
        seq![
            '.',
            digit((part / 100) as int),
            digit((part / 10 % 10) as int),
            digit((part % 10) as int),
        ]
    }
}

/// A whole number of thousandths with all three places after the point.
pub open spec fn three_places(n: nat) -> Seq<char> {
    decimal(n / 1000) + seq![
        '.',
        digit((n % 1000 / 100) as int),
        digit((n / 10 % 10) as int),
        digit((n % 10) as int),
    ]
}

/// Writes a whole number of hundredths as a decimal fraction.
pub fn to_hundredths(n: u128) -> (r: String)
    ensures
        r@ == hundredths(n as nat),
{
    let part: u128 = n % 100;
    let mut r: String = to_decimal(n / 100);
    let ghost whole = r@;
    proof {
        reveal_strlit(".");
    }
    if part != 0 {
        r.append(".");
        r.append(digit_text(part / 10));
        if part % 10 != 0 {
            r.append(digit_text(part % 10));
            assert(r@ =~= whole + seq!['.', digit((part / 10) as int), digit((part % 10) as int)]);
        } else {
            assert(r@ =~= whole + seq!['.', digit((part / 10) as int)]);
        }
    } else {
        assert(r@ =~= whole + Seq::<char>::empty());
    }
    r
}

/// Writes a whole number of thousandths as a decimal fraction.
pub fn to_thousandths(n: u128) -> (r: String)
    ensures
        r@ == thousandths(n as nat),
{
    let part: u128 = n % 1000;
    let mut r: String = to_decimal(n / 1000);
    let ghost whole = r@;
    proof {
        reveal_strlit(".");
    }
    if part != 0 {
        r.append(".");
        r.append(digit_text(part / 100));
        if part % 100 != 0 {
            r.append(digit_text(part / 10 % 10));
            if part % 10 != 0 {
                r.append(digit_text(part % 10));
                assert(r@ =~= whole + seq![
                    '.',
                    digit((part / 100) as int),
                    digit((part / 10 % 10) as int),
                    digit((part % 10) as int),
                ]);
            } else {
                assert(r@ =~= whole + seq![
                    '.',
                    digit((part / 100) as int),
                    digit((part / 10 % 10) as int),
                ]);
            }
        } else {
            assert(r@ =~= whole + seq!['.', digit((part / 100) as int)]);
        }
    } else {
        assert(r@ =~= whole + Seq::<char>::empty());
    }
    r
}

/// Writes a whole number of thousandths with all three places after the
/// point.
pub fn to_three_places(n: u128) -> (r: String)
    ensures
        r@ == three_places(n as nat),
{
    let mut r: String = to_decimal(n / 1000);
    let ghost whole = r@;
    proof {
        reveal_strlit(".");
    }
    r.append(".");
    r.append(digit_text(n % 1000 / 100));
    r.append(digit_text(n / 10 % 10));
    r.append(digit_text(n % 10));
    assert(r@ =~= whole + seq![
        '.',
        digit((n % 1000 / 100) as int),
        digit((n / 10 % 10) as int),
        digit((n % 10) as int),
    ]);
    r
}

/// A run of `n` blanks.
pub open spec fn blanks(n: int) -> Seq<char> {
    Seq::new(
        if n > 0 {
            n as nat
        } else {
            0
        },
        |i: int| ' ',
    )
}

/// Writes a run of `n` blanks.
pub fn to_blanks(n: usize) -> (r: String)
    ensures
        r@ == blanks(n as int),
{
    let mut r: String = String::new();
    let mut i: usize = 0;
    proof {
        reveal_strlit(" ");
        assert(r@ =~= blanks(0));
    }
    while i < n
        invariant
            i <= n,
            r@ == blanks(i as int),
            " "@ == seq![' '],
        decreases n - i,
    {
        r.append(" ");
        i = i + 1;
        assert(r@ =~= blanks(i as int));
    }
    r
}

/// A text brought to `width` characters by blanks before it; a longer text
/// stays as it is.
pub open spec fn padded_left(text: Seq<char>, width: int) -> Seq<char> {
    blanks(width - text.len()) + text
}

/// A text brought to `width` characters by blanks after it; a longer text
/// stays as it is.
pub open spec fn padded_right(text: Seq<char>, width: int) -> Seq<char> {
    text + blanks(width - text.len())
}

/// Brings a text to `width` characters by blanks before it.
pub fn pad_left(text: &str, width: usize) -> (r: String)
    ensures
        r@ == padded_left(text@, width as int),
{
    let n: usize = text.unicode_len();
    let mut r: String = to_blanks(if width > n {
        width - n
    } else {
        0
    });
    r.append(text);
    r
}

/// Brings a text to `width` characters by blanks after it.
pub fn pad_right(text: &str, width: usize) -> (r: String)
    ensures
        r@ == padded_right(text@, width as int),
{
    let n: usize = text.unicode_len();
    let mut r: String = text.to_owned();
    let fill: String = to_blanks(if width > n {
        width - n
    } else {
        0
    });
    r.append(fill.as_str());
    r
}

/// Whether `c` is white space.
pub open spec fn is_space(c: char) -> bool {
    let code = c as u32;
    ||| 0x09 <= code <= 0x0D
    ||| code == 0x20
    ||| code == 0x85
    ||| code == 0xA0
    ||| code == 0x1680
    ||| 0x2000 <= code <= 0x200A
    ||| code == 0x2028
    ||| code == 0x2029
    ||| code == 0x202F
    ||| code == 0x205F
    ||| code == 0x3000
}

/// The first place from `i` on that holds no white space, or the end.
pub open spec fn space_end(s: Seq<char>, i: int) -> int
    decreases s.len() - i,
{
    if 0 <= i < s.len() && is_space(s[i]) {
        space_end(s, i + 1)
    } else {
        i
    }
}

/// The first place from `i` on that holds white space, or the end.
pub open spec fn token_end(s: Seq<char>, i: int) -> int
    decreases s.len() - i,
{
    if 0 <= i < s.len() && !is_space(s[i]) {
        token_end(s, i + 1)
    } else {
        i
    }
}


/// Tells whether `c` is white space.
pub fn check_space(c: char) -> (r: bool)
    ensures
        r == is_space(c),
{
    let code: u32 = c as u32;
    (0x09 <= code && code <= 0x0D) || code == 0x20 || code == 0x85 || code == 0xA0 || code
        == 0x1680 || (0x2000 <= code && code <= 0x200A) || code == 0x2028 || code == 0x2029
        || code == 0x202F || code == 0x205F || code == 0x3000
}

/// The first place from `i` on that holds no white space, or the end.
pub(crate) fn skip_spaces(text: &str, n: usize, i: usize) -> (j: usize)
    requires
        n == text@.len(),
        i <= n,
    ensures
        i <= j <= n,
        j == space_end(text@, i as int),
{
    let mut j: usize = i;
    while j < n && check_space(text.get_char(j))
        invariant
            i <= j <= n,
            n == text@.len(),
            space_end(text@, j as int) == space_end(text@, i as int),
        decreases n - j,
    {
        j = j + 1;
    }
    j
}

/// The first place from `i` on that holds white space, or the end.
pub(crate) fn skip_token(text: &str, n: usize, i: usize) -> (j: usize)
    requires
        n == text@.len(),
        i <= n,
    ensures
        i <= j <= n,
        j == token_end(text@, i as int),
{
    let mut j: usize = i;
    while j < n && !check_space(text.get_char(j))
        invariant
            i <= j <= n,
            n == text@.len(),
            token_end(text@, j as int) == token_end(text@, i as int),
        decreases n - j,
    {
        j = j + 1;
    }
    j
}

/// The place after the last character before `j` that is no white space,
/// or the start.
pub open spec fn trim_end(s: Seq<char>, j: int) -> int
    decreases j,
{
    if 0 < j <= s.len() && is_space(s[j - 1]) {
        trim_end(s, j - 1)
    } else {
        j
    }
}

/// A text without the white space at its ends.
pub open spec fn trimmed(s: Seq<char>) -> Seq<char> {
    let start = space_end(s, 0);
    let end = trim_end(s, s.len() as int);
    if start < end {
        s.subrange(start, end)
    } else {
        Seq::empty()
    }
}

/// Takes the white space off the ends of a text.
pub fn trim(text: &str) -> (r: &str)
    ensures
        r@ == trimmed(text@),
{
    let n: usize = text.unicode_len();
    let start: usize = skip_spaces(text, n, 0);
    let mut end: usize = n;
    while end > 0 && check_space(text.get_char(end - 1))
        invariant
            end <= n,
            n == text@.len(),
            trim_end(text@, end as int) == trim_end(text@, n as int),
        decreases end,
    {
        end = end - 1;
    }
    if start < end {
        text.substring_char(start, end)
    } else {
        let r = text.substring_char(0, 0);
        assert(r@ =~= Seq::<char>::empty());
        r
    }
}

/// What the standard library makes of a text when it puts it in lower case.
pub uninterp spec fn lowercase(text: Seq<char>) -> Seq<char>;

/// Puts a text in lower case by a call of `str::to_lowercase` of the
/// standard library. The contract only gives the result its name: the same
/// text always gives the same result.
#[verifier::external_body]
pub(crate) fn to_lowercase(text: &str) -> (r: String)
    ensures
        r@ == lowercase(text@),
{
    text.to_lowercase()
}

} // verus!
