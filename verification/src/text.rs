//! Text primitives: the string operations that the rest of the crate is written with, each stated
//! over the characters of its arguments.

use vstd::prelude::*;

verus! {

/// `String::push` appends one character.
pub assume_specification[ String::push ](s: &mut String, ch: char)
    ensures
        final(s)@ == old(s)@.push(ch),
;

/// The characters of `s`, in order.
pub fn chars_of(s: &str) -> (out: Vec<char>)
    ensures
        out@ == s@,
{
    let mut out: Vec<char> = Vec::new();
    for c in it: s.chars()
        invariant
            it.seq() == s@,
            out@ == s@.take(it.index()),
    {
        out.push(c);
    }
    out
}

/// The string made of the characters of `chars` from `from` up to `to`.
pub fn string_of(chars: &Vec<char>, from: usize, to: usize) -> (out: String)
    requires
        from <= to <= chars@.len(),
    ensures
        out@ == chars@.subrange(from as int, to as int),
{
    let mut out = String::new();
    let mut i: usize = from;
    while i < to
        invariant
            from <= i <= to <= chars@.len(),
            out@ == chars@.subrange(from as int, i as int),
        decreases to - i,
    {
        out.push(chars[i]);
        i += 1;
    }
    out
}

/// Whether two strings hold the same characters.
pub fn str_eq(a: &str, b: &str) -> (same: bool)
    ensures
        same == (a@ == b@),
{
    let x = chars_of(a);
    let y = chars_of(b);
    if x.len() != y.len() {
        return false;
    }
    let mut i: usize = 0;
    while i < x.len()
        invariant
            x@ == a@,
            y@ == b@,
            i <= x@.len() == y@.len(),
            forall|j: int| 0 <= j < i ==> x@[j] == y@[j],
        decreases x@.len() - i,
    {
        if x[i] != y[i] {
            assert(a@[i as int] != b@[i as int]);
            return false;
        }
        i += 1;
    }
    assert(a@ =~= b@);
    true
}


// ---- white space ----------------------------------------------------------------------------

/// The characters with the Unicode `White_Space` property.
pub open spec fn white_space(c: char) -> bool {
    ||| '\u{9}' <= c <= '\u{d}'
    ||| c == ' '
    ||| c == '\u{85}'
    ||| c == '\u{a0}'
    ||| c == '\u{1680}'
    ||| '\u{2000}' <= c <= '\u{200a}'
    ||| c == '\u{2028}'
    ||| c == '\u{2029}'
    ||| c == '\u{202f}'
    ||| c == '\u{205f}'
    ||| c == '\u{3000}'
}

/// Whether `c` has the Unicode `White_Space` property.
pub fn is_white_space(c: char) -> (r: bool)
    ensures
        r == white_space(c),
{
    ('\u{9}' <= c && c <= '\u{d}') || c == ' ' || c == '\u{85}' || c == '\u{a0}' || c == '\u{1680}'
        || ('\u{2000}' <= c && c <= '\u{200a}') || c == '\u{2028}' || c == '\u{2029}'
        || c == '\u{202f}' || c == '\u{205f}' || c == '\u{3000}'
}

/// `s` without its leading white space.
pub open spec fn trimmed_start(s: Seq<char>) -> Seq<char>
    decreases s.len(),
{
    if s.len() > 0 && white_space(s[0]) {
        trimmed_start(s.drop_first())
    } else {
        s
    }
}

/// `s` without its trailing white space.
pub open spec fn trimmed_end(s: Seq<char>) -> Seq<char>
    decreases s.len(),
{
    if s.len() > 0 && white_space(s.last()) {
        trimmed_end(s.drop_last())
    } else {
        s
    }
}

/// `s` without leading and trailing white space.
pub open spec fn trimmed(s: Seq<char>) -> Seq<char> {
    trimmed_end(trimmed_start(s))
}

/// Removes leading and trailing white space.
pub fn trim(s: &str) -> (out: String)
    ensures
        out@ == trimmed(s@),
{
    let chars = chars_of(s);
    let mut from: usize = 0;
    proof {
        assert(chars@.subrange(0, chars@.len() as int) =~= s@);
    }
    while from < chars.len() && is_white_space(chars[from])
        invariant
            chars@ == s@,
            from <= chars@.len(),
            trimmed_start(s@) == trimmed_start(chars@.subrange(from as int, chars@.len() as int)),
        decreases chars@.len() - from,
    {
        proof {
            let rest = chars@.subrange(from as int, chars@.len() as int);
            assert(rest.drop_first() =~= chars@.subrange(from + 1, chars@.len() as int));
        }
        from += 1;
    }
    let mut to: usize = chars.len();
    while to > from && is_white_space(chars[to - 1])
        invariant
            chars@ == s@,
            from <= to <= chars@.len(),
            trimmed(s@) == trimmed_end(chars@.subrange(from as int, to as int)),
        decreases to,
    {
        proof {
            let rest = chars@.subrange(from as int, to as int);
            assert(rest.drop_last() =~= chars@.subrange(from as int, to - 1));
        }
        to -= 1;
    }
    string_of(&chars, from, to)
}

/// `s` without the slashes at its end.
pub open spec fn without_end_slashes(s: Seq<char>) -> Seq<char>
    decreases s.len(),
{
    if s.len() > 0 && s.last() == '/' {
        without_end_slashes(s.drop_last())
    } else {
        s
    }
}

/// Removes the slashes at the end of a URL base.
pub fn trim_end_slashes(s: &str) -> (out: String)
    ensures
        out@ == without_end_slashes(s@),
{
    let chars = chars_of(s);
    let mut to: usize = chars.len();
    proof {
        assert(chars@.subrange(0, to as int) =~= s@);
    }
    while to > 0 && chars[to - 1] == '/'
        invariant
            chars@ == s@,
            to <= chars@.len(),
            without_end_slashes(s@) == without_end_slashes(chars@.subrange(0, to as int)),
        decreases to,
    {
        proof {
            let rest = chars@.subrange(0, to as int);
            assert(rest.drop_last() =~= chars@.subrange(0, to - 1));
        }
        to -= 1;
    }
    string_of(&chars, 0, to)
}

// ---- splitting and joining ------------------------------------------------------------------

/// The pieces of `s` between the occurrences of `sep`: always at least one, and empty ones count.
pub open spec fn pieces(s: Seq<char>, sep: char) -> Seq<Seq<char>>
    decreases s.len(),
{
    if s.len() == 0 {
        seq![Seq::<char>::empty()]
    } else {
        let front = pieces(s.drop_last(), sep);
        if s.last() == sep {
            front.push(Seq::<char>::empty())
        } else {
            front.update(front.len() - 1, front.last().push(s.last()))
        }
    }
}

/// The text of each string.
pub open spec fn texts(v: Seq<String>) -> Seq<Seq<char>> {
    v.map_values(|s: String| s@)
}

/// The pieces of a string are never none.
pub proof fn lemma_pieces_not_empty(s: Seq<char>, sep: char)
    ensures
        pieces(s, sep).len() > 0,
    decreases s.len(),
{
    if s.len() > 0 {
        lemma_pieces_not_empty(s.drop_last(), sep);
    }
}

/// Splits `s` at every `sep`.
pub fn split(s: &str, sep: char) -> (out: Vec<String>)
    ensures
        texts(out@) == pieces(s@, sep),
{
    let chars = chars_of(s);
    let mut out: Vec<String> = Vec::new();
    let mut piece = String::new();
    let mut i: usize = 0;
    while i < chars.len()
        invariant
            chars@ == s@,
            i <= chars@.len(),
            texts(out@).push(piece@) == pieces(s@.take(i as int), sep),
        decreases chars@.len() - i,
    {
        let ghost done = s@.take(i as int);
        let ghost front = texts(out@);
        proof {
            assert(s@.take(i + 1).drop_last() =~= done);
            assert(s@.take(i + 1).last() == chars@[i as int]);
        }
        if chars[i] == sep {
            out.push(piece);
            proof {
                assert(texts(out@) =~= front.push(piece@));
            }
            piece = String::new();
        } else {
            let ghost before = piece@;
            piece.push(chars[i]);
            proof {
                assert(front.push(before).update(front.len() as int, piece@) =~= front.push(
                    piece@,
                ));
            }
        }
        i += 1;
    }
    proof {
        assert(s@.take(i as int) =~= s@);
    }
    let ghost front = texts(out@);
    out.push(piece);
    proof {
        assert(texts(out@) =~= front.push(piece@));
    }
    out
}

/// The parts one after the other, with `sep` between neighbours.
pub open spec fn joined(parts: Seq<Seq<char>>, sep: char) -> Seq<char>
    decreases parts.len(),
{
    if parts.len() == 0 {
        Seq::<char>::empty()
    } else if parts.len() == 1 {
        parts[0]
    } else {
        joined(parts.drop_last(), sep).push(sep) + parts.last()
    }
}

/// Joins the parts with `sep` between neighbours.
pub fn join(parts: &Vec<String>, sep: char) -> (out: String)
    ensures
        out@ == joined(texts(parts@), sep),
{
    let mut out = String::new();
    let mut i: usize = 0;
    while i < parts.len()
        invariant
            i <= parts@.len(),
            out@ == joined(texts(parts@).take(i as int), sep),
        decreases parts@.len() - i,
    {
        proof {
            let all = texts(parts@);
            assert(all.take(i + 1).drop_last() =~= all.take(i as int));
            assert(all.take(i + 1).last() == parts@[i as int]@);
        }
        if i > 0 {
            out.push(sep);
        }
        out.append(parts[i].as_str());
        proof {
            if i == 0 {
                assert(out@ =~= parts@[0]@);
            }
        }
        i += 1;
    }
    proof {
        assert(texts(parts@).take(i as int) =~= texts(parts@));
    }
    out
}

// ---- putting texts together -----------------------------------------------------------------

/// Two texts, one after the other.
pub fn cat2(a: &str, b: &str) -> (out: String)
    ensures
        out@ == a@ + b@,
{
    let mut out = a.to_owned();
    out.append(b);
    out
}

/// Three texts, one after the other.
pub fn cat3(a: &str, b: &str, c: &str) -> (out: String)
    ensures
        out@ == a@ + b@ + c@,
{
    let mut out = cat2(a, b);
    out.append(c);
    out
}

/// Four texts, one after the other.
pub fn cat4(a: &str, b: &str, c: &str, d: &str) -> (out: String)
    ensures
        out@ == a@ + b@ + c@ + d@,
{
    let mut out = cat3(a, b, c);
    out.append(d);
    out
}

/// Five texts, one after the other.
pub fn cat5(a: &str, b: &str, c: &str, d: &str, e: &str) -> (out: String)
    ensures
        out@ == a@ + b@ + c@ + d@ + e@,
{
    let mut out = cat4(a, b, c, d);
    out.append(e);
    out
}

/// What an optional string holds.
pub open spec fn opt_text(s: Option<String>) -> Option<Seq<char>> {
    match s {
        Some(t) => Some(t@),
        None => None,
    }
}

/// A copy of an optional string.
pub fn copy_opt(s: &Option<String>) -> (out: Option<String>)
    ensures
        opt_text(out) == opt_text(*s),
{
    match s {
        Some(t) => Some(t.clone()),
        None => None,
    }
}

/// A copy of a list of strings.
pub fn copy_texts(v: &Vec<String>) -> (out: Vec<String>)
    ensures
        texts(out@) == texts(v@),
{
    let mut out: Vec<String> = Vec::new();
    let mut i: usize = 0;
    while i < v.len()
        invariant
            i <= v@.len(),
            texts(out@) == texts(v@).take(i as int),
        decreases v@.len() - i,
    {
        let ghost before = texts(out@);
        out.push(v[i].clone());
        proof {
            assert(texts(out@) =~= before.push(v@[i as int]@));
            assert(texts(v@).take(i + 1) =~= texts(v@).take(i as int).push(v@[i as int]@));
        }
        i += 1;
    }
    proof {
        assert(texts(v@).take(i as int) =~= texts(v@));
    }
    out
}

/// Whether `prefix` stands at the start of `s`.
pub open spec fn begins_with(s: Seq<char>, prefix: Seq<char>) -> bool {
    prefix.len() <= s.len() && s.take(prefix.len() as int) == prefix
}

/// Tests whether `prefix` stands at the start of `s`.
pub fn starts_with(s: &str, prefix: &str) -> (r: bool)
    ensures
        r == begins_with(s@, prefix@),
{
    let x = chars_of(s);
    let y = chars_of(prefix);
    if y.len() > x.len() {
        return false;
    }
    let mut i: usize = 0;
    while i < y.len()
        invariant
            x@ == s@,
            y@ == prefix@,
            i <= y@.len() <= x@.len(),
            forall|j: int| 0 <= j < i ==> x@[j] == y@[j],
        decreases y@.len() - i,
    {
        if x[i] != y[i] {
            proof {
                assert(s@.take(prefix@.len() as int)[i as int] != prefix@[i as int]);
            }
            return false;
        }
        i += 1;
    }
    proof {
        assert(s@.take(prefix@.len() as int) =~= prefix@);
    }
    true
}

/// Whether `t` is one of the strings of `v`.
pub fn has_text(v: &Vec<String>, t: &str) -> (r: bool)
    ensures
        r == texts(v@).contains(t@),
{
    let mut i: usize = 0;
    while i < v.len()
        invariant
            i <= v@.len(),
            forall|j: int| 0 <= j < i ==> #[trigger] texts(v@)[j] != t@,
        decreases v@.len() - i,
    {
        if str_eq(v[i].as_str(), t) {
            proof {
                assert(texts(v@)[i as int] == t@);
            }
            return true;
        }
        i += 1;
    }
    false
}

// ---- ASCII case -----------------------------------------------------------------------------

/// The ASCII lower case of `c`; every other character is kept.
pub open spec fn ascii_lower(c: char) -> char {
    if 'A' <= c <= 'Z' {
        ((c as u8) + 32) as u8 as char
    } else {
        c
    }
}

/// The ASCII lower case of every character of `s`.
pub open spec fn ascii_lowered(s: Seq<char>) -> Seq<char> {
    s.map_values(|c: char| ascii_lower(c))
}

/// Turns the ASCII capitals of `s` into small letters.
pub fn to_ascii_lower(s: &str) -> (out: String)
    ensures
        out@ == ascii_lowered(s@),
{
    let chars = chars_of(s);
    let mut out = String::new();
    let mut i: usize = 0;
    while i < chars.len()
        invariant
            chars@ == s@,
            i <= chars@.len(),
            out@ == ascii_lowered(s@.take(i as int)),
        decreases chars@.len() - i,
    {
        let c = chars[i];
        let small = if 'A' <= c && c <= 'Z' {
            ((c as u8) + 32) as char
        } else {
            c
        };
        out.push(small);
        i += 1;
        proof {
            assert(ascii_lowered(s@.take(i as int)) =~= ascii_lowered(s@.take(i - 1)).push(small));
        }
    }
    proof {
        assert(s@.take(i as int) =~= s@);
    }
    out
}

// ---- decimal numbers ------------------------------------------------------------------------

/// The character of a decimal digit.
pub open spec fn digit_char(d: nat) -> char {
    (48 + d) as u8 as char
}

/// The decimal text of `n`, without leading zeros.
pub open spec fn decimal(n: nat) -> Seq<char>
    decreases n,
{
    if n < 10 {
        seq![digit_char(n)]
    } else {
        decimal(n / 10).push(digit_char(n % 10))
    }
}

/// Whether a text is a number: one digit or more and nothing else.
pub open spec fn is_number(s: Seq<char>) -> bool {
    s.len() > 0 && forall|i: int| 0 <= i < s.len() ==> '0' <= #[trigger] s[i] <= '9'
}

/// A decimal text is a number.
pub proof fn lemma_decimal_is_number(n: nat)
    ensures
        is_number(decimal(n)),
    decreases n,
{
    if n >= 10 {
        lemma_decimal_is_number(n / 10);
    }
}

/// Two numbers with the same decimal text are the same.
pub proof fn lemma_decimal_is_one_to_one(n: nat, m: nat)
    requires
        decimal(n) == decimal(m),
    ensures
        n == m,
    decreases n,
{
    lemma_decimal_is_number(n / 10);
    lemma_decimal_is_number(m / 10);
    assert(decimal(n).last() == digit_char(n % 10));
    assert(decimal(m).last() == digit_char(m % 10));
    if n >= 10 {
        assert(decimal(n).len() > 1);
        assert(m >= 10);
        assert(decimal(n).drop_last() =~= decimal(n / 10));
        assert(decimal(m).drop_last() =~= decimal(m / 10));
        lemma_decimal_is_one_to_one(n / 10, m / 10);
    }
}

/// Writes `n` in decimal.
pub fn u64_text(n: u64) -> (out: String)
    ensures
        out@ == decimal(n as nat),
    decreases n,
{
    let mut out = if n < 10 {
        String::new()
    } else {
        u64_text(n / 10)
    };
    let digit: u8 = (n % 10) as u8;
    out.push((48 + digit) as char);
    proof {
        if n < 10 {
            assert(out@ =~= seq![digit_char(n as nat)]);
        }
    }
    out
}

/// `s` filled up with zeros on the left to at least `width` characters.
pub open spec fn zero_padded(s: Seq<char>, width: nat) -> Seq<char> {
    if s.len() >= width {
        s
    } else {
        Seq::new((width - s.len()) as nat, |i: int| '0') + s
    }
}

/// Fills `s` up with zeros on the left to at least `width` characters.
pub fn pad_zeros(s: &str, width: usize) -> (out: String)
    ensures
        out@ == zero_padded(s@, width as nat),
{
    let len: usize = s.unicode_len();
    let mut out = String::new();
    let mut filled: usize = len;
    while filled < width
        invariant
            len == s@.len(),
            len <= filled,
            filled <= width || filled == len,
            out@ == Seq::new((filled - len) as nat, |i: int| '0'),
        decreases width - filled,
    {
        out.push('0');
        filled += 1;
        proof {
            assert(out@ =~= Seq::new((filled - len) as nat, |i: int| '0'));
        }
    }
    out.append(s);
    proof {
        if len >= width {
            assert(out@ =~= s@);
        }
    }
    out
}

/// Whether `c` is one of `0` to `9`.
pub open spec fn is_digit(c: char) -> bool {
    '0' <= c <= '9'
}

/// The number that a run of decimal digits stands for.
pub open spec fn digits_value(s: Seq<char>) -> nat
    decreases s.len(),
{
    if s.len() == 0 {
        0
    } else {
        (digits_value(s.drop_last()) * 10 + (s.last() as int - 48)) as nat
    }
}

/// The digits of a number text: what follows an optional plus sign.
pub open spec fn after_plus(s: Seq<char>) -> Seq<char> {
    if s.len() > 1 && s[0] == '+' {
        s.drop_first()
    } else {
        s
    }
}

/// What an unsigned number text stands for: an optional plus sign, then one or more digits, and a
/// value of at most `max`.
pub open spec fn parsed_number(s: Seq<char>, max: u64) -> Option<u64> {
    let digits = after_plus(s);
    if digits.len() > 0 && (forall|i: int| 0 <= i < digits.len() ==> is_digit(#[trigger] digits[i]))
        && digits_value(digits) <= max {
        Some(digits_value(digits) as u64)
    } else {
        None
    }
}

proof fn lemma_digits_value_grows(s: Seq<char>, n: int)
    requires
        0 <= n <= s.len(),
        forall|i: int| 0 <= i < s.len() ==> is_digit(#[trigger] s[i]),
    ensures
        digits_value(s.take(n)) <= digits_value(s),
    decreases s.len(),
{
    if n == s.len() {
        assert(s.take(n) =~= s);
    } else {
        lemma_digits_value_grows(s.drop_last(), n);
        assert(s.drop_last().take(n) =~= s.take(n));
        assert(is_digit(s[s.len() - 1]));
    }
}

/// Whether the digits at the start of a text, some of them or all, make a number above `max`.
pub open spec fn exceeds(digits: Seq<char>, max: u64) -> bool {
    exists|n: int|
        0 <= n <= digits.len() && (forall|i: int| 0 <= i < n ==> is_digit(#[trigger] digits[i]))
            && #[trigger] digits_value(digits.take(n)) > max
}

/// What is wrong with a text that is no unsigned number.
#[derive(Clone, Copy, Debug, PartialEq, Eq, Structural)]
pub enum NumberFault {
    /// There is nothing to read.
    Empty,
    /// Something is no digit.
    BadDigit,
    /// The number is too large, as far as its digits were read.
    TooLarge,
}

impl NumberFault {
    /// What is said of the fault.
    pub open spec fn message(self) -> Seq<char> {
        match self {
            NumberFault::Empty => "cannot parse integer from empty string"@,
            NumberFault::BadDigit => "invalid digit found in string"@,
            NumberFault::TooLarge => "number too large to fit in target type"@,
        }
    }

    /// Says what is wrong.
    pub fn text(&self) -> (out: String)
        ensures
            out@ == self.message(),
    {
        match self {
            NumberFault::Empty => "cannot parse integer from empty string".to_owned(),
            NumberFault::BadDigit => "invalid digit found in string".to_owned(),
            NumberFault::TooLarge => "number too large to fit in target type".to_owned(),
        }
    }
}

/// What reading an unsigned number of at most `max` gives. A text is read from its start, so a
/// number that is too large before its first bad digit is too large.
pub open spec fn number_read(s: Seq<char>, max: u64) -> Result<u64, NumberFault> {
    match parsed_number(s, max) {
        Some(n) => Ok(n),
        None => Err(
            if s.len() == 0 {
                NumberFault::Empty
            } else if exceeds(after_plus(s), max) {
                NumberFault::TooLarge
            } else {
                NumberFault::BadDigit
            },
        ),
    }
}

proof fn lemma_bad_digit_ends(digits: Seq<char>, at: int, max: u64)
    requires
        0 <= at < digits.len(),
        !is_digit(digits[at]),
        forall|i: int| 0 <= i < at ==> is_digit(#[trigger] digits[i]),
        digits_value(digits.take(at)) <= max,
    ensures
        !exceeds(digits, max),
{
    assert forall|n: int|
        0 <= n <= digits.len() && (forall|i: int|
            0 <= i < n ==> is_digit(#[trigger] digits[i])) implies #[trigger] digits_value(
        digits.take(n),
    ) <= max by {
        if n > at {
            assert(is_digit(digits[at]));
        }
        let front = digits.take(at);
        assert forall|i: int| 0 <= i < front.len() implies is_digit(#[trigger] front[i]) by {
            assert(front[i] == digits[i]);
        }
        lemma_digits_value_grows(front, n);
        assert(front.take(n) =~= digits.take(n));
    }
}

/// Reads an unsigned number of at most `max`, if it is one.
pub fn parse_number(s: &str, max: u64) -> (out: Option<u64>)
    ensures
        out == parsed_number(s@, max),
{
    match read_number(s, max) {
        Ok(n) => Some(n),
        Err(_) => None,
    }
}

/// Reads an unsigned number of at most `max`, or says what is wrong with it.
pub fn read_number(s: &str, max: u64) -> (out: Result<u64, NumberFault>)
    ensures
        out == number_read(s@, max),
{
    let chars = chars_of(s);
    let from: usize = if chars.len() > 1 && chars[0] == '+' {
        1
    } else {
        0
    };
    let ghost digits = after_plus(s@);
    proof {
        assert(digits =~= s@.subrange(from as int, s@.len() as int));
    }
    if chars.len() == 0 {
        return Err(NumberFault::Empty);
    }
    let mut value: u64 = 0;
    let mut i: usize = from;
    while i < chars.len()
        invariant
            chars@ == s@,
            digits == after_plus(s@),
            digits == s@.subrange(from as int, s@.len() as int),
            from <= i <= chars@.len(),
            forall|j: int| 0 <= j < i - from ==> is_digit(#[trigger] digits[j]),
            value == digits_value(digits.take(i - from)),
            value <= max,
            chars@.len() > 0,
        decreases chars@.len() - i,
    {
        let c = chars[i];
        proof {
            assert(digits[i - from] == c);
            assert(digits.take(i + 1 - from).drop_last() =~= digits.take(i - from));
        }
        if !('0' <= c && c <= '9') {
            proof {
                lemma_bad_digit_ends(digits, i - from, max);
            }
            return Err(NumberFault::BadDigit);
        }
        let digit: u64 = (c as u64) - 48;
        if digit > max || value > (max - digit) / 10 {
            proof {
                assert(value * 10 + digit > max);
                assert(digits_value(digits.take(i + 1 - from)) > max);
                assert(exceeds(digits, max));
                if forall|j: int| 0 <= j < digits.len() ==> is_digit(#[trigger] digits[j]) {
                    lemma_digits_value_grows(digits, i + 1 - from);
                }
            }
            return Err(NumberFault::TooLarge);
        }
        value = value * 10 + digit;
        i += 1;
    }
    proof {
        assert(digits.take(i - from) =~= digits);
    }
    Ok(value)
}

/// Trimming takes white space from both ends and nothing else: what is left is a part of the text,
/// all before and behind it is white space, and it neither begins nor ends with any.
pub proof fn law_trimming_takes_white_space(s: Seq<char>)
    ensures
        exists|from: int, to: int|
            0 <= from <= to <= s.len() && trimmed(s) == #[trigger] s.subrange(from, to) && (forall|
                i: int,
            |
                0 <= i < from ==> white_space(#[trigger] s[i])) && (forall|i: int|
                to <= i < s.len() ==> white_space(#[trigger] s[i])),
        trimmed(s).len() > 0 ==> !white_space(trimmed(s)[0]) && !white_space(trimmed(s).last()),
        trimmed(trimmed(s)) == trimmed(s),
{
    let from = lemma_trimmed_start(s);
    let rest = trimmed_start(s);
    let to = lemma_trimmed_end(rest);
    let end = from + to;
    assert(trimmed(s) =~= s.subrange(from, end));
    assert forall|i: int| end <= i < s.len() implies white_space(#[trigger] s[i]) by {
        assert(rest[i - from] == s[i]);
    }
    if trimmed(s).len() > 0 {
        assert(trimmed(s)[0] == rest[0]);
    }
}

proof fn lemma_trimmed_start(s: Seq<char>) -> (from: int)
    ensures
        0 <= from <= s.len(),
        trimmed_start(s) == s.subrange(from, s.len() as int),
        forall|i: int| 0 <= i < from ==> white_space(#[trigger] s[i]),
        trimmed_start(s).len() > 0 ==> !white_space(trimmed_start(s)[0]),
    decreases s.len(),
{
    if s.len() > 0 && white_space(s[0]) {
        let rest = s.drop_first();
        let from = lemma_trimmed_start(rest);
        assert(trimmed_start(s) =~= s.subrange(from + 1, s.len() as int));
        assert forall|i: int| 0 <= i < from + 1 implies white_space(#[trigger] s[i]) by {
            if i > 0 {
                assert(rest[i - 1] == s[i]);
            }
        }
        from + 1
    } else {
        assert(s.subrange(0, s.len() as int) =~= s);
        0
    }
}

proof fn lemma_trimmed_end(s: Seq<char>) -> (to: int)
    ensures
        0 <= to <= s.len(),
        trimmed_end(s) == s.subrange(0, to),
        forall|i: int| to <= i < s.len() ==> white_space(#[trigger] s[i]),
        trimmed_end(s).len() > 0 ==> !white_space(trimmed_end(s).last()),
    decreases s.len(),
{
    if s.len() > 0 && white_space(s.last()) {
        let front = s.drop_last();
        let to = lemma_trimmed_end(front);
        assert(trimmed_end(s) =~= s.subrange(0, to));
        assert forall|i: int| to <= i < s.len() implies white_space(#[trigger] s[i]) by {
            if i < front.len() {
                assert(front[i] == s[i]);
            }
        }
        to
    } else {
        assert(s.subrange(0, s.len() as int) =~= s);
        s.len() as int
    }
}

/// Of the ASCII characters, the blank and the five controls from tab to carriage return are white
/// space, and no letter, digit or sign is.
pub proof fn law_ascii_white_space(c: char)
    requires
        c <= '~',
    ensures
        white_space(c) <==> c == ' ' || '\u{9}' <= c <= '\u{d}',
{
}

/// Only slashes at the end are taken from a URL base, and all of them.
pub proof fn law_end_slashes_are_taken(s: Seq<char>)
    ensures
        without_end_slashes(s).is_prefix_of(s),
        without_end_slashes(s).len() > 0 ==> without_end_slashes(s).last() != '/',
        forall|i: int| without_end_slashes(s).len() <= i < s.len() ==> #[trigger] s[i] == '/',
        without_end_slashes(s.push('/')) == without_end_slashes(s),
    decreases s.len(),
{
    assert(s.push('/').drop_last() =~= s);
    if s.len() > 0 && s.last() == '/' {
        let front = s.drop_last();
        let kept = without_end_slashes(front);
        law_end_slashes_are_taken(front);
        assert(kept =~= s.subrange(0, kept.len() as int)) by {
            assert(kept == front.subrange(0, kept.len() as int));
            assert(front.subrange(0, kept.len() as int) =~= s.subrange(0, kept.len() as int));
        }
        assert forall|i: int| kept.len() <= i < s.len() implies #[trigger] s[i] == '/' by {
            if i < front.len() {
                assert(front[i] == s[i]);
            }
        }
    } else {
        assert(s =~= s.subrange(0, s.len() as int));
    }
}

/// The pieces of a text joined again are the text, and no piece holds the separator.
pub proof fn law_pieces_join_again(s: Seq<char>, sep: char, i: int)
    ensures
        joined(pieces(s, sep), sep) == s,
        pieces(s, sep).len() > 0,
        0 <= i < pieces(s, sep).len() ==> !pieces(s, sep)[i].contains(sep),
    decreases s.len(),
{
    if s.len() == 0 {
        assert(joined(pieces(s, sep), sep) =~= s);
    } else {
        let front = pieces(s.drop_last(), sep);
        let all = pieces(s, sep);
        law_pieces_join_again(s.drop_last(), sep, i);
        law_pieces_join_again(s.drop_last(), sep, front.len() - 1);
        if s.last() == sep {
            assert(all.drop_last() =~= front);
            assert(all.last() =~= Seq::<char>::empty());
            assert(joined(all, sep) =~= s);
            if 0 <= i < front.len() {
                assert(all[i] == front[i]);
            }
        } else {
            let last = front.last().push(s.last());
            assert(all.last() == last);
            assert(all.drop_last() =~= front.drop_last());
            if front.len() == 1 {
                assert(front.last() == s.drop_last());
                assert(joined(all, sep) =~= s);
            } else {
                let head = joined(front.drop_last(), sep).push(sep);
                assert(head + front.last() == s.drop_last());
                assert(joined(all, sep) == head + last);
                assert(head + last =~= (head + front.last()).push(s.last()));
                assert(s =~= s.drop_last().push(s.last()));
            }
            if 0 <= i < all.len() - 1 {
                assert(all[i] == front[i]);
            } else if i == all.len() - 1 {
                if last.contains(sep) {
                    let j = choose|j: int| 0 <= j < last.len() && last[j] == sep;
                    assert(front.last()[j] == sep);
                    assert(front.last() == front[front.len() - 1]);
                }
            }
        }
    }
}

/// A separator parts the pieces before it from those behind it, and a text without one is one piece.
pub proof fn law_separator_parts_the_pieces(a: Seq<char>, b: Seq<char>, sep: char)
    ensures
        pieces(a.push(sep) + b, sep) == pieces(a, sep) + pieces(b, sep),
        !a.contains(sep) ==> pieces(a, sep) == seq![a],
    decreases a.len() + b.len(),
{
    let whole = a.push(sep) + b;
    lemma_pieces_not_empty(a, sep);
    lemma_pieces_not_empty(b, sep);
    if b.len() == 0 {
        assert(whole =~= a.push(sep));
        assert(whole.drop_last() =~= a);
        assert(pieces(whole, sep) =~= pieces(a, sep) + pieces(b, sep));
        if a.len() > 0 && !a.contains(sep) {
            let front = a.drop_last();
            assert(!front.contains(sep)) by {
                if front.contains(sep) {
                    let j = choose|j: int| 0 <= j < front.len() && front[j] == sep;
                    assert(a[j] == sep);
                }
            }
            law_separator_parts_the_pieces(front, b, sep);
            assert(a[a.len() - 1] != sep);
            assert(front.push(a.last()) =~= a);
            assert(pieces(a, sep) =~= seq![a]);
        } else if a.len() == 0 {
            assert(a =~= Seq::<char>::empty());
        }
    } else {
        let c = b.drop_last();
        law_separator_parts_the_pieces(a, c, sep);
        assert(whole.drop_last() =~= a.push(sep) + c);
        assert(whole.last() == b.last());
        lemma_pieces_not_empty(c, sep);
        let x = pieces(a, sep);
        let y = pieces(c, sep);
        assert((x + y).last() == y.last());
        assert(pieces(whole, sep) =~= x + pieces(b, sep));
    }
}

/// Joined parts have the separator between neighbours and nowhere else: one part stays as it is, and
/// joining a part on adds the separator and the part.
pub proof fn law_parts_are_joined(parts: Seq<Seq<char>>, part: Seq<char>, sep: char)
    ensures
        joined(Seq::empty(), sep) == Seq::<char>::empty(),
        joined(seq![part], sep) == part,
        parts.len() > 0 ==> joined(parts.push(part), sep) == joined(parts, sep).push(sep) + part,
{
    assert(parts.push(part).drop_last() =~= parts);
}

/// The small form of a text has a small letter for each ASCII capital, in its place in the alphabet,
/// and every other character as it is. It is its own small form.
pub proof fn law_lower_case_keeps_the_rest(s: Seq<char>, i: int)
    requires
        0 <= i < s.len(),
    ensures
        ascii_lowered(s).len() == s.len(),
        'A' <= s[i] <= 'Z' ==> ascii_lowered(s)[i] as int == s[i] as int + 32,
        !('A' <= s[i] <= 'Z') ==> ascii_lowered(s)[i] == s[i],
        ascii_lowered(ascii_lowered(s)) == ascii_lowered(s),
{
    assert forall|k: int| 0 <= k < s.len() implies ascii_lower(ascii_lower(#[trigger] s[k]))
        == ascii_lower(s[k]) by {
        lemma_lower(s[k]);
    }
    lemma_lower(s[i]);
    assert(ascii_lowered(ascii_lowered(s)) =~= ascii_lowered(s));
}

proof fn lemma_lower(c: char)
    ensures
        'A' <= c <= 'Z' ==> ascii_lower(c) as int == c as int + 32,
        ascii_lower(ascii_lower(c)) == ascii_lower(c),
{
}

/// A number that is written in decimal is read back, by whoever takes numbers of that size, with or
/// without a plus sign before it; and nobody reads a number that is too large.
pub proof fn law_decimal_reads_back(n: nat, max: u64)
    ensures
        digits_value(decimal(n)) == n,
        n <= max ==> parsed_number(decimal(n), max) == Some(n as u64),
        n <= max ==> parsed_number(seq!['+'] + decimal(n), max) == Some(n as u64),
        n > max ==> parsed_number(decimal(n), max) is None,
{
    lemma_decimal_value(n);
    lemma_decimal_is_number(n);
    let text = decimal(n);
    let plus = seq!['+'] + text;
    assert(text[0] != '+');
    assert(after_plus(text) == text);
    assert(after_plus(plus) =~= text);
}

proof fn lemma_decimal_value(n: nat)
    ensures
        digits_value(decimal(n)) == n,
    decreases n,
{
    reveal_with_fuel(digits_value, 2);
    if n < 10 {
        assert(decimal(n).drop_last() =~= Seq::<char>::empty());
    } else {
        lemma_decimal_value(n / 10);
        assert(decimal(n).drop_last() =~= decimal(n / 10));
    }
}

/// A run of digits stands for ten times what it stands for without the last, and the last.
pub proof fn law_digits_have_places(s: Seq<char>, c: char)
    requires
        '0' <= c <= '9',
    ensures
        digits_value(Seq::empty()) == 0,
        digits_value(s.push(c)) == 10 * digits_value(s) + (c as int - '0' as int),
{
    assert(s.push(c).drop_last() =~= s);
}

/// A decimal text has digits only, and no zero before another digit.
pub proof fn law_decimal_is_plain(n: nat)
    ensures
        is_number(decimal(n)),
        decimal(n)[0] == '0' ==> n == 0,
        n < 10 ==> decimal(n).len() == 1,
        n >= 10 ==> decimal(n).len() == decimal(n / 10).len() + 1,
    decreases n,
{
    lemma_decimal_is_number(n);
    if n >= 10 {
        law_decimal_is_plain(n / 10);
        assert(decimal(n)[0] == decimal(n / 10)[0]);
    }
}

/// A text that is read as a number has digits only, but for a plus sign before them, and the number
/// is what the digits stand for and no more than it may be.
pub proof fn law_only_numbers_are_read(s: Seq<char>, max: u64, i: int)
    requires
        parsed_number(s, max) is Some,
        0 <= i < s.len(),
    ensures
        parsed_number(s, max)->0 <= max,
        '0' <= s[i] <= '9' || (i == 0 && s[0] == '+' && s.len() > 1),
        s[0] != '+' ==> parsed_number(s, max)->0 == digits_value(s),
        s[0] == '+' ==> parsed_number(s, max)->0 == digits_value(s.drop_first()),
{
    let digits = after_plus(s);
    if s.len() > 1 && s[0] == '+' && i > 0 {
        assert(digits[i - 1] == s[i]);
        assert(is_digit(digits[i - 1]));
    } else if !(s.len() > 1 && s[0] == '+') {
        assert(is_digit(digits[i]));
        assert(is_digit(digits[0]));
    }
}

/// Filling up with zeros keeps the text at the end, adds zeros only, and no more than it takes.
pub proof fn law_zeros_fill_up(s: Seq<char>, width: nat, i: int)
    ensures
        s.is_suffix_of(zero_padded(s, width)),
        zero_padded(s, width).len() >= width && zero_padded(s, width).len() >= s.len(),
        zero_padded(s, width).len() == width || zero_padded(s, width).len() == s.len(),
        0 <= i < zero_padded(s, width).len() - s.len() ==> zero_padded(s, width)[i] == '0',
{
    let p = zero_padded(s, width);
    assert(s =~= p.subrange(p.len() - s.len(), p.len() as int));
}

/// A text begins with a prefix exactly when it is the prefix and something behind it.
pub proof fn law_prefix_stands_first(s: Seq<char>, prefix: Seq<char>, rest: Seq<char>)
    ensures
        begins_with(prefix + rest, prefix),
        begins_with(s, prefix) ==> s == prefix + s.skip(prefix.len() as int),
{
    assert((prefix + rest).take(prefix.len() as int) =~= prefix);
    if begins_with(s, prefix) {
        assert(s =~= s.take(prefix.len() as int) + s.skip(prefix.len() as int));
    }
}

/// The texts of strings are those of the strings, each in its place.
pub proof fn law_texts_are_of_the_strings(v: Seq<String>, i: int, s: Option<String>)
    requires
        0 <= i < v.len(),
    ensures
        texts(v).len() == v.len(),
        texts(v)[i] == v[i]@,
        opt_text(s) is Some <==> s is Some,
        s is Some ==> opt_text(s)->0 == s->0@,
{
}

/// A text is read as a number exactly where it is one that fits. What is wrong with it otherwise: it
/// is empty, or its first digits are a number that is too large, or something in it is no digit.
pub proof fn law_faults_are_told_apart(s: Seq<char>, max: u64, n: nat)
    ensures
        number_read(s, max) is Ok <==> parsed_number(s, max) is Some,
        number_read(s, max) is Ok ==> number_read(s, max)->Ok_0 == parsed_number(s, max)->0,
        number_read(s, max) == Err::<u64, NumberFault>(NumberFault::Empty) <==> s.len() == 0,
        n > max ==> number_read(decimal(n), max) == Err::<u64, NumberFault>(NumberFault::TooLarge),
        s.len() > 0 && s[0] != '+' && !('0' <= s[0] <= '9') ==> number_read(s, max) == Err::<
            u64,
            NumberFault,
        >(NumberFault::BadDigit),
{
    law_decimal_reads_back(n, max);
    lemma_decimal_is_number(n);
    let text = decimal(n);
    assert(text[0] != '+');
    assert(after_plus(text) == text);
    assert(text.take(text.len() as int) =~= text);
    if n > max {
        assert forall|i: int| 0 <= i < text.len() implies is_digit(#[trigger] text[i]) by {}
        assert(digits_value(text.take(text.len() as int)) > max);
        assert(exceeds(text, max));
    }
    if s.len() > 0 && s[0] != '+' && !('0' <= s[0] <= '9') {
        assert(after_plus(s) == s);
        assert(!is_digit(s[0]));
        assert(s.take(0) =~= Seq::<char>::empty());
        assert(digits_value(s.take(0)) == 0);
        lemma_bad_digit_ends(s, 0, max);
    }
}

} // verus!
