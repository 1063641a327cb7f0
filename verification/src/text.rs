//! Text building blocks: decimal numbers with leading zeros, and the
//! replacement of field terminators by a printable character.

use vstd::prelude::*;

verus! {

/// The NUL character that ends every field of an encoded message.
pub const TERMINATOR: char = '\0';

/// The printable character that stands for a terminator in a recorded file.
pub const SEPARATOR: char = '|';

/// The character of the decimal digit `d`.
pub open spec fn digit_char(d: int) -> char {
    if d == 0 {
        '0'
    } else if d == 1 {
        '1'
    } else if d == 2 {
        '2'
    } else if d == 3 {
        '3'
    } else if d == 4 {
        '4'
    } else if d == 5 {
        '5'
    } else if d == 6 {
        '6'
    } else if d == 7 {
        '7'
    } else if d == 8 {
        '8'
    } else {
        '9'
    }
}

/// The decimal digits of `n`, most significant first, without leading zeros
/// (a single `0` for zero).
pub open spec fn decimal(n: nat) -> Seq<char>
    decreases n,
{
    if n < 10 {
        seq![digit_char(n as int)]
    } else {
        decimal(n / 10).push(digit_char((n % 10) as int))
    }
}

/// `count` zeros.
pub open spec fn zeros(count: nat) -> Seq<char> {
    Seq::new(count, |i: int| '0')
}

/// The decimal digits of `n`, with zeros in front until there are at least
/// `width` characters. A number with more digits than `width` is not cut.
pub open spec fn zero_padded(n: nat, width: nat) -> Seq<char> {
    if decimal(n).len() >= width {
        decimal(n)
    } else {
        zeros((width - decimal(n).len()) as nat) + decimal(n)
    }
}

/// Appending a character to a string appends it to the string's view.
pub assume_specification[ String::push ](text: &mut String, ch: char)
    ensures
        final(text)@ == old(text)@.push(ch),
;

/// The character of the decimal digit `d`.
pub fn digit(d: u8) -> (c: char)
    requires
        d < 10,
    ensures
        c == digit_char(d as int),
{
    match d {
        0 => '0',
        1 => '1',
        2 => '2',
        3 => '3',
        4 => '4',
        5 => '5',
        6 => '6',
        7 => '7',
        8 => '8',
        _ => '9',
    }
}

/// Appends the decimal digits of `n` to `out`.
pub fn push_decimal(out: &mut String, n: usize)
    ensures
        final(out)@ == old(out)@ + decimal(n as nat),
    decreases n,
{
    if n >= 10 {
        push_decimal(out, n / 10);
    }
    out.push(digit((n % 10) as u8));
}

/// The number of decimal digits of `n`.
pub fn decimal_len(n: usize) -> (len: usize)
    ensures
        len == decimal(n as nat).len(),
{
    let mut len: usize = 1;
    let mut rest: usize = n;
    while rest >= 10
        invariant
            1 <= len,
            len + rest <= n + 1,
            len + decimal(rest as nat).len() == decimal(n as nat).len() + 1,
        decreases rest,
    {
        rest = rest / 10;
        len = len + 1;
    }
    len
}

/// Appends `n` in decimal to `out`, with zeros in front up to `width`
/// characters.
pub fn push_zero_padded(out: &mut String, n: usize, width: usize)
    ensures
        final(out)@ == old(out)@ + zero_padded(n as nat, width as nat),
{
    let len = decimal_len(n);
    let mut at: usize = len;
    while at < width
        invariant
            len <= at,
            len < width ==> at <= width,
            len >= width ==> at == len,
            out@ == old(out)@ + zeros((at - len) as nat),
        decreases width - at,
    {
        out.push('0');
        at = at + 1;
    }
    let ghost padding = zeros((at - len) as nat);
    push_decimal(out, n);
    proof {
        assert(out@ == (old(out)@ + padding) + decimal(n as nat));
        if len >= width {
            assert(padding =~= Seq::<char>::empty());
            assert(out@ =~= old(out)@ + decimal(n as nat));
        } else {
            assert(out@ =~= old(out)@ + (padding + decimal(n as nat)));
        }
    }
}

/// What stands in a recorded file for the character `c` of a message.
pub open spec fn readable_char(c: char) -> char {
    if c == TERMINATOR {
        SEPARATOR
    } else {
        c
    }
}

/// The content recorded for a message: the message with every terminator
/// replaced by the separator, and every other character kept in its place.
pub open spec fn readable(message: Seq<char>) -> Seq<char> {
    Seq::new(message.len(), |i: int| readable_char(message[i]))
}

/// Replaces every terminator of `message` by the separator.
pub fn replace_terminators(message: &str) -> (content: String)
    ensures
        content@ == readable(message@),
{
    let mut content = String::new();
    for c in it: message.chars()
        invariant
            it.seq() == message@,
            content@ == readable(message@.take(it.index())),
    {
        if c == TERMINATOR {
            content.push(SEPARATOR);
        } else {
            content.push(c);
        }
    }
    content
}

/// How often the character `c` occurs in `text`.
pub open spec fn occurrences(text: Seq<char>, c: char) -> nat
    decreases text.len(),
{
    if text.len() == 0 {
        0
    } else {
        occurrences(text.drop_last(), c) + if text.last() == c {
            1nat
        } else {
            0nat
        }
    }
}

/// The recorded content has the length of the message; it holds a separator
/// wherever the message holds a terminator, the message's own character
/// everywhere else, and no terminator at all.
pub proof fn lemma_readable_keeps_positions(message: Seq<char>)
    ensures
        readable(message).len() == message.len(),
        forall|i: int|
            0 <= i < message.len() && message[i] == TERMINATOR ==> #[trigger] readable(message)[i]
                == SEPARATOR,
        forall|i: int|
            0 <= i < message.len() && message[i] != TERMINATOR ==> #[trigger] readable(message)[i]
                == message[i],
        forall|i: int| 0 <= i < message.len() ==> #[trigger] readable(message)[i] != TERMINATOR,
{
}

/// The recorded content holds no terminator, and as many separators as the
/// message holds separators and terminators together.
pub proof fn lemma_readable_occurrences(message: Seq<char>)
    ensures
        occurrences(readable(message), TERMINATOR) == 0,
        occurrences(readable(message), SEPARATOR) == occurrences(message, SEPARATOR) + occurrences(
            message,
            TERMINATOR,
        ),
    decreases message.len(),
{
    if message.len() > 0 {
        lemma_readable_occurrences(message.drop_last());
        assert(readable(message).drop_last() =~= readable(message.drop_last()));
    }
}

/// A text in which `c` does not occur holds `c` at no position.
pub proof fn lemma_absent_character(text: Seq<char>, c: char)
    requires
        occurrences(text, c) == 0,
    ensures
        forall|i: int| 0 <= i < text.len() ==> #[trigger] text[i] != c,
    decreases text.len(),
{
    if text.len() > 0 {
        lemma_absent_character(text.drop_last(), c);
        assert forall|i: int| 0 <= i < text.len() implies #[trigger] text[i] != c by {
            if i < text.len() - 1 {
                assert(text[i] == text.drop_last()[i]);
            }
        }
    }
}

/// Of a message that holds no separator of its own: the recorded content has
/// exactly as many separators as the message has terminators, they stand at
/// the positions of the terminators and nowhere else, no terminator is left,
/// and every other character is the message's.
pub proof fn lemma_terminators_become_separators(message: Seq<char>)
    requires
        occurrences(message, SEPARATOR) == 0,
    ensures
        readable(message).len() == message.len(),
        occurrences(readable(message), SEPARATOR) == occurrences(message, TERMINATOR),
        occurrences(readable(message), TERMINATOR) == 0,
        forall|i: int|
            0 <= i < message.len() ==> (#[trigger] readable(message)[i] == SEPARATOR
                <==> message[i] == TERMINATOR),
        forall|i: int|
            0 <= i < message.len() && message[i] != TERMINATOR ==> #[trigger] readable(message)[i]
                == message[i],
{
    lemma_readable_occurrences(message);
    lemma_absent_character(message, SEPARATOR);
}

/// Whether `c` is a decimal digit.
pub open spec fn is_digit(c: char) -> bool {
    '0' <= c <= '9'
}

/// The value of the decimal digit `c`.
pub open spec fn digit_value(c: char) -> nat {
    (c as nat - '0' as nat) as nat
}

/// The number that the decimal digits `digits` spell, leading zeros allowed.
pub open spec fn number_of(digits: Seq<char>) -> nat
    decreases digits.len(),
{
    if digits.len() == 0 {
        0
    } else {
        number_of(digits.drop_last()) * 10 + digit_value(digits.last())
    }
}

/// The digits of a number spell that number.
pub proof fn lemma_number_of_decimal(n: nat)
    ensures
        number_of(decimal(n)) == n,
    decreases n,
{
    if n < 10 {
        assert(decimal(n).drop_last() =~= Seq::<char>::empty());
        assert(number_of(decimal(n).drop_last()) == 0);
        assert(decimal(n).last() == digit_char(n as int));
        assert(digit_value(digit_char(n as int)) == n);
    } else {
        lemma_number_of_decimal(n / 10);
        assert(decimal(n).drop_last() =~= decimal(n / 10));
        assert(decimal(n).last() == digit_char((n % 10) as int));
        assert(digit_value(digit_char((n % 10) as int)) == n % 10);
    }
}

/// Zeros in front do not change the number that digits spell.
pub proof fn lemma_number_of_leading_zeros(count: nat, digits: Seq<char>)
    ensures
        number_of(zeros(count) + digits) == number_of(digits),
    decreases digits.len(), count,
{
    let all = zeros(count) + digits;
    if digits.len() > 0 {
        lemma_number_of_leading_zeros(count, digits.drop_last());
        assert(all.drop_last() =~= zeros(count) + digits.drop_last());
    } else if count > 0 {
        lemma_number_of_leading_zeros((count - 1) as nat, digits);
        assert(all.drop_last() =~= zeros((count - 1) as nat) + digits);
    }
}

/// A padded number spells the number that was padded: the padding loses
/// nothing.
pub proof fn lemma_number_of_zero_padded(n: nat, width: nat)
    ensures
        number_of(zero_padded(n, width)) == n,
{
    lemma_number_of_decimal(n);
    if decimal(n).len() < width {
        lemma_number_of_leading_zeros((width - decimal(n).len()) as nat, decimal(n));
    }
}

/// Two numbers with the same padded text are the same number.
pub proof fn lemma_zero_padded_injective(a: nat, b: nat, width: nat)
    requires
        zero_padded(a, width) == zero_padded(b, width),
    ensures
        a == b,
{
    lemma_number_of_zero_padded(a, width);
    lemma_number_of_zero_padded(b, width);
}

/// The digits of a number are digits, and there is at least one.
pub proof fn lemma_decimal_digits(n: nat)
    ensures
        decimal(n).len() >= 1,
        forall|i: int| 0 <= i < decimal(n).len() ==> is_digit(#[trigger] decimal(n)[i]),
    decreases n,
{
    if n >= 10 {
        lemma_decimal_digits(n / 10);
    }
}

/// A padded number is made of digits, at least `width` of them and at least
/// one.
pub proof fn lemma_zero_padded_digits(n: nat, width: nat)
    ensures
        zero_padded(n, width).len() >= width,
        zero_padded(n, width).len() >= 1,
        forall|i: int|
            0 <= i < zero_padded(n, width).len() ==> is_digit(#[trigger] zero_padded(n, width)[i]),
{
    lemma_decimal_digits(n);
}

} // verus!
