//! The grammar of dice expressions.
//!
//! An expression is either `<count>d<sides>`, optionally followed by
//! `+ <modifier>` with any amount of white space around the plus sign, or a
//! bare number. Every number is written in decimal digits and must fit in a
//! byte. Nothing may stand before or after the expression.

use vstd::prelude::*;

verus! {

/// A dice expression, parsed.
#[derive(Debug, Clone, Copy, PartialEq, Eq, Structural)]
pub enum Notation {
    /// A bare number: no dice are thrown.
    Fixed(u8),
    /// `count` dice of `sides` sides each, and `modifier` added to their sum.
    Dice { count: u8, sides: u8, modifier: u8 },
}

/// `c` is one of the ten decimal digits.
pub open spec fn is_digit(c: char) -> bool {
    '0' <= c && c <= '9'
}

/// The value of a decimal digit.
pub open spec fn digit_value(c: char) -> nat {
    (c as u32 - '0' as u32) as nat
}

/// `c` is white space: a character with the Unicode property `White_Space`.
pub open spec fn is_blank(c: char) -> bool {
    let n = c as u32;
    ||| 0x09 <= n <= 0x0D
    ||| n == 0x20
    ||| n == 0x85
    ||| n == 0xA0
    ||| n == 0x1680
    ||| 0x2000 <= n <= 0x200A
    ||| n == 0x2028
    ||| n == 0x2029
    ||| n == 0x202F
    ||| n == 0x205F
    ||| n == 0x3000
}

/// The number that a string of decimal digits writes, most significant digit
/// first. The empty string writes zero.
pub open spec fn decimal_value(digits: Seq<char>) -> nat
    decreases digits.len(),
{
    if digits.len() == 0 {
        0
    } else {
        decimal_value(digits.drop_last()) * 10 + digit_value(digits.last())
    }
}

/// `text[from..to]` is a non-empty run of digits.
pub open spec fn digits_at(text: Seq<char>, from: int, to: int) -> bool {
    &&& 0 <= from < to <= text.len()
    &&& forall|k: int| from <= k < to ==> is_digit(#[trigger] text[k])
}

/// `text[from..to]` is a possibly empty run of white space.
pub open spec fn blanks_at(text: Seq<char>, from: int, to: int) -> bool {
    &&& 0 <= from <= to <= text.len()
    &&& forall|k: int| from <= k < to ==> is_blank(#[trigger] text[k])
}

/// The number written by `text[from..to]`.
pub open spec fn number_at(text: Seq<char>, from: int, to: int) -> nat {
    decimal_value(text.subrange(from, to))
}

/// `text` reads `<count>d<sides>` with the `d` at index `letter`, and `n`
/// holds the two numbers.
pub open spec fn plain_dice(text: Seq<char>, letter: int, n: Notation) -> bool {
    &&& digits_at(text, 0, letter)
    &&& letter < text.len()
    &&& text[letter] == 'd'
    &&& digits_at(text, letter + 1, text.len() as int)
    &&& n matches Notation::Dice { count, sides, modifier }
    &&& count == number_at(text, 0, letter)
    &&& sides == number_at(text, letter + 1, text.len() as int)
    &&& modifier == 0
}

/// `text` reads `<count>d<sides> + <modifier>`: the `d` at index `letter`,
/// the sides ending before `gap`, the plus sign at `plus`, the modifier
/// starting at `tail`. `n` holds the three numbers.
pub open spec fn modified_dice(
    text: Seq<char>,
    letter: int,
    gap: int,
    plus: int,
    tail: int,
    n: Notation,
) -> bool {
    &&& digits_at(text, 0, letter)
    &&& letter < text.len()
    &&& text[letter] == 'd'
    &&& digits_at(text, letter + 1, gap)
    &&& blanks_at(text, gap, plus)
    &&& plus < text.len()
    &&& text[plus] == '+'
    &&& blanks_at(text, plus + 1, tail)
    &&& digits_at(text, tail, text.len() as int)
    &&& n matches Notation::Dice { count, sides, modifier }
    &&& count == number_at(text, 0, letter)
    &&& sides == number_at(text, letter + 1, gap)
    &&& modifier == number_at(text, tail, text.len() as int)
}

/// Where the digits of a bare number start in `text`: after a leading plus
/// sign, if there is one.
pub open spec fn bare_start(text: Seq<char>) -> int {
    if text.len() > 0 && text[0] == '+' {
        1
    } else {
        0
    }
}

/// `text` is a bare number, with or without a leading plus sign, and `n`
/// holds it.
pub open spec fn bare_number(text: Seq<char>, n: Notation) -> bool {
    &&& digits_at(text, bare_start(text), text.len() as int)
    &&& n matches Notation::Fixed(value)
    &&& value == number_at(text, bare_start(text), text.len() as int)
}

/// `text` is a well-formed dice expression and `n` is what it says.
pub open spec fn denotes(text: Seq<char>, n: Notation) -> bool {
    ||| exists|letter: int| plain_dice(text, letter, n)
    ||| exists|letter: int, gap: int, plus: int, tail: int|
        modified_dice(text, letter, gap, plus, tail, n)
    ||| bare_number(text, n)
}

/// What `text` says, if it is a well-formed dice expression.
pub open spec fn notation_of(text: Seq<char>) -> Option<Notation> {
    if exists|n: Notation| denotes(text, n) {
        Some(choose|n: Notation| denotes(text, n))
    } else {
        None
    }
}

/// `text[from..to]` is the longest run of digits that starts at `from`.
spec fn digit_run(text: Seq<char>, from: int, to: int) -> bool {
    &&& 0 <= from <= to <= text.len()
    &&& forall|k: int| from <= k < to ==> is_digit(#[trigger] text[k])
    &&& to < text.len() ==> !is_digit(text[to])
}

/// `text[from..to]` is the longest run of white space that starts at `from`.
spec fn blank_run(text: Seq<char>, from: int, to: int) -> bool {
    &&& 0 <= from <= to <= text.len()
    &&& forall|k: int| from <= k < to ==> is_blank(#[trigger] text[k])
    &&& to < text.len() ==> !is_blank(text[to])
}

fn is_digit_char(c: char) -> (b: bool)
    ensures
        b == is_digit(c),
{
    let n: u32 = c as u32;
    48 <= n && n <= 57
}

fn digit_of(c: char) -> (v: u8)
    requires
        is_digit(c),
    ensures
        v == digit_value(c),
        v <= 9,
{
    let n: u32 = c as u32;
    (n - 48) as u8
}

fn is_blank_char(c: char) -> (b: bool)
    ensures
        b == is_blank(c),
{
    let n: u32 = c as u32;
    (0x09 <= n && n <= 0x0D) || n == 0x20 || n == 0x85 || n == 0xA0 || n == 0x1680 || (0x2000 <= n
        && n <= 0x200A) || n == 0x2028 || n == 0x2029 || n == 0x202F || n == 0x205F || n == 0x3000
}

fn chars_of(text: &str) -> (chars: Vec<char>)
    ensures
        chars@ == text@,
{
    let mut chars: Vec<char> = Vec::new();
    for c in it: text.chars()
        invariant
            it.seq() == text@,
            chars@ == it.seq().take(it.index() as int),
    {
        chars.push(c);
    }
    chars
}

/// Appending a digit to a run multiplies its number by ten and adds the digit.
proof fn lemma_number_extends(text: Seq<char>, from: int, to: int)
    requires
        0 <= from <= to < text.len(),
    ensures
        number_at(text, from, to + 1) == number_at(text, from, to) * 10 + digit_value(text[to]),
{
    let longer = text.subrange(from, to + 1);
    assert(longer.drop_last() == text.subrange(from, to));
    assert(longer.last() == text[to]);
}

/// Reads the longest run of digits that starts at `from`. Returns where the
/// run ends and the number it writes, if that fits in a byte.
fn read_number(chars: &Vec<char>, from: usize) -> (r: (usize, Option<u8>))
    requires
        from <= chars.len(),
    ensures
        digit_run(chars@, from as int, r.0 as int),
        match r.1 {
            Some(value) => value == number_at(chars@, from as int, r.0 as int),
            None => number_at(chars@, from as int, r.0 as int) > 255,
        },
{
    let mut i: usize = from;
    let mut value: u8 = 0;
    let mut fits: bool = true;
    assert(chars@.subrange(from as int, from as int).len() == 0);
    while i < chars.len() && is_digit_char(chars[i])
        invariant
            from <= i <= chars.len(),
            forall|k: int| from <= k < i ==> is_digit(#[trigger] chars@[k]),
            fits ==> value == number_at(chars@, from as int, i as int),
            !fits ==> number_at(chars@, from as int, i as int) > 255,
        decreases chars.len() - i,
    {
        let digit: u8 = digit_of(chars[i]);
        proof {
            lemma_number_extends(chars@, from as int, i as int);
        }
        if fits {
            if value > 25 || (value == 25 && digit > 5) {
                fits = false;
            } else {
                value = value * 10 + digit;
            }
        }
        i += 1;
    }
    if fits {
        (i, Some(value))
    } else {
        (i, None)
    }
}

/// Skips the longest run of white space that starts at `from`, and returns
/// where it ends.
fn skip_blanks(chars: &Vec<char>, from: usize) -> (to: usize)
    requires
        from <= chars.len(),
    ensures
        blank_run(chars@, from as int, to as int),
{
    let mut i: usize = from;
    while i < chars.len() && is_blank_char(chars[i])
        invariant
            from <= i <= chars.len(),
            forall|k: int| from <= k < i ==> is_blank(#[trigger] chars@[k]),
        decreases chars.len() - i,
    {
        i += 1;
    }
    i
}

/// `text` begins with digits that end in the letter `d` at index `letter`.
spec fn has_letter(text: Seq<char>, letter: int) -> bool {
    0 < letter < text.len() && text[letter] == 'd'
}

/// What the longest runs of `text` say of any expression it may hold. The
/// digits from the start end at `letter`, those after the `d` at `gap`, the
/// white space after them at `plus`, the white space after the plus sign at
/// `tail`, the digits after that at `end`; the digits of a bare number end at
/// `bare_end`.
spec fn read_as(
    text: Seq<char>,
    letter: int,
    gap: int,
    plus: int,
    tail: int,
    end: int,
    bare_end: int,
    n: Notation,
) -> bool {
    if has_letter(text, letter) {
        &&& gap > letter + 1
        &&& n matches Notation::Dice { count, sides, modifier }
        &&& count == number_at(text, 0, letter)
        &&& sides == number_at(text, letter + 1, gap)
        &&& if gap == text.len() {
            modifier == 0
        } else {
            &&& plus < text.len()
            &&& text[plus] == '+'
            &&& end > tail
            &&& end == text.len()
            &&& modifier == number_at(text, tail, end)
        }
    } else {
        &&& bare_end > bare_start(text)
        &&& bare_end == text.len()
        &&& n matches Notation::Fixed(value)
        &&& value == number_at(text, bare_start(text), bare_end)
    }
}

/// An expression can only be read along the longest runs of its text.
proof fn lemma_read_along_runs(
    text: Seq<char>,
    letter: int,
    gap: int,
    plus: int,
    tail: int,
    end: int,
    bare_end: int,
    n: Notation,
)
    requires
        denotes(text, n),
        digit_run(text, 0, letter),
        has_letter(text, letter) ==> digit_run(text, letter + 1, gap),
        has_letter(text, letter) && letter + 1 < gap < text.len() ==> blank_run(text, gap, plus),
        has_letter(text, letter) && letter + 1 < gap < text.len() && plus < text.len()
            && text[plus] == '+' ==> blank_run(text, plus + 1, tail) && digit_run(text, tail, end),
        !has_letter(text, letter) ==> digit_run(text, bare_start(text), bare_end),
    ensures
        read_as(text, letter, gap, plus, tail, end, bare_end, n),
{
    if exists|at_letter: int| plain_dice(text, at_letter, n) {
        let at_letter = choose|at_letter: int| plain_dice(text, at_letter, n);
        assert(is_digit(text[0]));
        assert(at_letter == letter) by {
            if at_letter < letter {
                assert(is_digit(text[at_letter]));
            }
        }
        assert(gap == text.len()) by {
            if gap < text.len() {
                assert(is_digit(text[gap]));
            }
        }
    } else if exists|letter: int, gap: int, plus: int, tail: int|
        modified_dice(text, letter, gap, plus, tail, n) {
        let (at_letter, at_gap, at_plus, at_tail) = choose|
            letter: int,
            gap: int,
            plus: int,
            tail: int,
        | modified_dice(text, letter, gap, plus, tail, n);
        assert(is_digit(text[0]));
        assert(at_letter == letter) by {
            if at_letter < letter {
                assert(is_digit(text[at_letter]));
            }
        }
        assert(at_gap == gap) by {
            if at_gap < gap {
                assert(is_digit(text[at_gap]));
                assert(at_gap < at_plus ==> is_blank(text[at_gap]));
            } else if gap < at_gap {
                assert(is_digit(text[gap]));
            }
        }
        assert(at_plus == plus) by {
            if at_plus < plus {
                assert(is_blank(text[at_plus]));
            } else if plus < at_plus {
                assert(is_blank(text[plus]));
            }
        }
        assert(at_tail == tail) by {
            assert(is_digit(text[at_tail]));
            if at_tail < tail {
                assert(is_blank(text[at_tail]));
            } else if tail < at_tail {
                assert(is_blank(text[tail]));
            }
        }
        assert(end == text.len()) by {
            if end < text.len() {
                assert(is_digit(text[end]));
            }
        }
    } else {
        assert(bare_number(text, n));
        let start = bare_start(text);
        if has_letter(text, letter) {
            assert(is_digit(text[letter]));
        }
        assert(bare_end == text.len()) by {
            if bare_end < text.len() {
                assert(is_digit(text[bare_end]));
            }
        }
    }
}

/// Where the longest run of digits that starts at `from` ends.
spec fn digits_end(text: Seq<char>, from: int) -> int
    decreases text.len() - from,
{
    if 0 <= from < text.len() && is_digit(text[from]) {
        digits_end(text, from + 1)
    } else {
        from
    }
}

/// Where the longest run of white space that starts at `from` ends.
spec fn blanks_end(text: Seq<char>, from: int) -> int
    decreases text.len() - from,
{
    if 0 <= from < text.len() && is_blank(text[from]) {
        blanks_end(text, from + 1)
    } else {
        from
    }
}

proof fn lemma_digits_end(text: Seq<char>, from: int)
    requires
        0 <= from <= text.len(),
    ensures
        digit_run(text, from, digits_end(text, from)),
    decreases text.len() - from,
{
    if from < text.len() && is_digit(text[from]) {
        lemma_digits_end(text, from + 1);
    }
}

proof fn lemma_blanks_end(text: Seq<char>, from: int)
    requires
        0 <= from <= text.len(),
    ensures
        blank_run(text, from, blanks_end(text, from)),
    decreases text.len() - from,
{
    if from < text.len() && is_blank(text[from]) {
        lemma_blanks_end(text, from + 1);
    }
}

/// A well-formed expression says one thing only.
pub proof fn lemma_denotes_unique(text: Seq<char>, a: Notation, b: Notation)
    requires
        denotes(text, a),
        denotes(text, b),
    ensures
        a == b,
{
    let letter = digits_end(text, 0);
    lemma_digits_end(text, 0);
    let gap = digits_end(text, letter + 1);
    let plus = blanks_end(text, gap);
    let tail = blanks_end(text, plus + 1);
    let end = digits_end(text, tail);
    if has_letter(text, letter) {
        lemma_digits_end(text, letter + 1);
        lemma_blanks_end(text, gap);
        if plus < text.len() {
            lemma_blanks_end(text, plus + 1);
            lemma_digits_end(text, tail);
        }
    }
    let bare_end = digits_end(text, bare_start(text));
    lemma_digits_end(text, bare_start(text));
    lemma_read_along_runs(text, letter, gap, plus, tail, end, bare_end, a);
    lemma_read_along_runs(text, letter, gap, plus, tail, end, bare_end, b);
}

/// What a well-formed expression says is what `notation_of` gives for it.
pub proof fn lemma_notation_of(text: Seq<char>, n: Notation)
    requires
        denotes(text, n),
    ensures
        notation_of(text) == Some(n),
{
    let chosen = choose|n: Notation| denotes(text, n);
    lemma_denotes_unique(text, chosen, n);
}

/// A reading that agrees with the longest runs of `text` is the only one.
proof fn lemma_settled(
    text: Seq<char>,
    letter: int,
    gap: int,
    plus: int,
    tail: int,
    end: int,
    bare_end: int,
    r: Option<Notation>,
)
    requires
        digit_run(text, 0, letter),
        has_letter(text, letter) ==> digit_run(text, letter + 1, gap),
        has_letter(text, letter) && letter + 1 < gap < text.len() ==> blank_run(text, gap, plus),
        has_letter(text, letter) && letter + 1 < gap < text.len() && plus < text.len()
            && text[plus] == '+' ==> blank_run(text, plus + 1, tail) && digit_run(text, tail, end),
        !has_letter(text, letter) ==> digit_run(text, bare_start(text), bare_end),
        match r {
            Some(n) => denotes(text, n),
            None => forall|n: Notation| !read_as(text, letter, gap, plus, tail, end, bare_end, n),
        },
    ensures
        r == notation_of(text),
{
    assert forall|n: Notation| denotes(text, n) implies read_as(
        text,
        letter,
        gap,
        plus,
        tail,
        end,
        bare_end,
        n,
    ) by {
        lemma_read_along_runs(text, letter, gap, plus, tail, end, bare_end, n);
    }
}

/// Parses a dice expression. Returns `None` where `text` is not well formed
/// or one of its numbers does not fit in a byte.
pub fn parse_notation(text: &str) -> (r: Option<Notation>)
    ensures
        r == notation_of(text@),
{
    let chars = chars_of(text);
    let n: usize = chars.len();
    let (letter, count) = read_number(&chars, 0);
    if letter > 0 && letter < n && chars[letter] == 'd' {
        let (gap, sides) = read_number(&chars, letter + 1);
        if gap > letter + 1 && gap == n {
            let r = match (count, sides) {
                (Some(count), Some(sides)) => Some(Notation::Dice { count, sides, modifier: 0 }),
                _ => None,
            };
            proof {
                if let Some(found) = r {
                    assert(plain_dice(chars@, letter as int, found));
                }
                lemma_settled(chars@, letter as int, gap as int, 0, 0, 0, 0, r);
            }
            r
        } else if gap > letter + 1 {
            let plus = skip_blanks(&chars, gap);
            if plus < n && chars[plus] == '+' {
                let tail = skip_blanks(&chars, plus + 1);
                let (end, modifier) = read_number(&chars, tail);
                let r = if end > tail && end == n {
                    match (count, sides, modifier) {
                        (Some(count), Some(sides), Some(modifier)) => Some(
                            Notation::Dice { count, sides, modifier },
                        ),
                        _ => None,
                    }
                } else {
                    None
                };
                proof {
                    if let Some(found) = r {
                        assert(modified_dice(
                            chars@,
                            letter as int,
                            gap as int,
                            plus as int,
                            tail as int,
                            found,
                        ));
                    }
                    lemma_settled(
                        chars@,
                        letter as int,
                        gap as int,
                        plus as int,
                        tail as int,
                        end as int,
                        0,
                        r,
                    );
                }
                r
            } else {
                proof {
                    lemma_settled(chars@, letter as int, gap as int, plus as int, 0, 0, 0, None);
                }
                None
            }
        } else {
            proof {
                lemma_settled(chars@, letter as int, gap as int, 0, 0, 0, 0, None);
            }
            None
        }
    } else {
        let start: usize = if n > 0 && chars[0] == '+' { 1 } else { 0 };
        let (bare_end, value) = read_number(&chars, start);
        let r = if bare_end > start && bare_end == n {
            match value {
                Some(value) => Some(Notation::Fixed(value)),
                None => None,
            }
        } else {
            None
        };
        proof {
            if let Some(found) = r {
                assert(bare_number(chars@, found));
            }
            lemma_settled(chars@, letter as int, 0, 0, 0, 0, bare_end as int, r);
        }
        r
    }
}

} // verus!
