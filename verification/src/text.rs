//! Decimal digits in text: what file names, requests and messages are made of.
use vstd::prelude::*;
use vstd::std_specs::iter::IteratorSpec;
use vstd::string::*;

verus! {

/// The character that writes the digit `d`.
pub open spec fn digit_char(d: int) -> char {
    if d == 0 {
        '0'
    } else if d == 1 {
        '1'
    } else if d == 2 {
        '2'
    } else if d == 3 {
        '3'
    } else if d == 4 {
        '4'
    } else if d == 5 {
        '5'
    } else if d == 6 {
        '6'
    } else if d == 7 {
        '7'
    } else if d == 8 {
        '8'
    } else {
        '9'
    }
}

/// The digit that a character writes, if it writes one.
pub open spec fn digit_of(c: char) -> Option<int> {
    if c == '0' {
        Some(0)
    } else if c == '1' {
        Some(1)
    } else if c == '2' {
        Some(2)
    } else if c == '3' {
        Some(3)
    } else if c == '4' {
        Some(4)
    } else if c == '5' {
        Some(5)
    } else if c == '6' {
        Some(6)
    } else if c == '7' {
        Some(7)
    } else if c == '8' {
        Some(8)
    } else if c == '9' {
        Some(9)
    } else {
        None
    }
}

/// The decimal notation of `n`, without leading zeros.
pub open spec fn decimal_text(n: nat) -> Seq<char>
    decreases n,
{
    if n < 10 {
        seq![digit_char(n as int)]
    } else {
        decimal_text(n / 10).push(digit_char((n % 10) as int))
    }
}

/// The decimal notation of `n`, with zeros in front up to `width` characters.
pub open spec fn padded_decimal(n: nat, width: nat) -> Seq<char> {
    let digits = decimal_text(n);
    if digits.len() >= width {
        digits
    } else {
        Seq::new((width - digits.len()) as nat, |i: int| '0') + digits
    }
}

/// Whether every character of `text` writes a digit.
pub open spec fn all_digits(text: Seq<char>) -> bool {
    forall|i: int| 0 <= i < text.len() ==> (#[trigger] digit_of(text[i])) is Some
}

/// The number that a string of digits writes, most significant digit first.
pub open spec fn digits_value(text: Seq<char>) -> nat
    recommends
        all_digits(text),
    decreases text.len(),
{
    if text.len() == 0 {
        0
    } else {
        (10 * digits_value(text.drop_last()) + digit_of(text.last()).unwrap()) as nat
    }
}

fn digit_str(d: u8) -> (s: &'static str)
    requires
        d < 10,
    ensures
        s@ == seq![digit_char(d as int)],
{
    proof {
        reveal_strlit("0");
        reveal_strlit("1");
        reveal_strlit("2");
        reveal_strlit("3");
        reveal_strlit("4");
        reveal_strlit("5");
        reveal_strlit("6");
        reveal_strlit("7");
        reveal_strlit("8");
        reveal_strlit("9");
    }
    let s: &'static str = if d == 0 {
        "0"
    } else if d == 1 {
        "1"
    } else if d == 2 {
        "2"
    } else if d == 3 {
        "3"
    } else if d == 4 {
        "4"
    } else if d == 5 {
        "5"
    } else if d == 6 {
        "6"
    } else if d == 7 {
        "7"
    } else if d == 8 {
        "8"
    } else {
        "9"
    };
    assert(s@ =~= seq![digit_char(d as int)]);
    s
}

/// Appends the decimal notation of `n`.
pub fn push_decimal(text: &mut String, n: u64)
    ensures
        final(text)@ == old(text)@ + decimal_text(n as nat),
    decreases n,
{
    if n < 10 {
        text.append(digit_str(n as u8));
    } else {
        push_decimal(text, n / 10);
        text.append(digit_str((n % 10) as u8));
        assert(old(text)@ + decimal_text((n / 10) as nat) + seq![digit_char((n % 10) as int)]
            =~= old(text)@ + decimal_text(n as nat));
    }
}

/// The number of characters of the decimal notation of `n`.
pub fn decimal_len(n: u64) -> (len: usize)
    ensures
        len == decimal_text(n as nat).len(),
        1 <= len <= 20,
    decreases n,
{
    proof {
        lemma_decimal_len(n as nat);
    }
    if n < 10 {
        1
    } else {
        let rest: usize = decimal_len(n / 10);
        rest + 1
    }
}

spec fn ten_to(k: nat) -> nat
    decreases k,
{
    if k == 0 {
        1
    } else {
        10 * ten_to((k - 1) as nat)
    }
}

proof fn lemma_ten_to_20()
    ensures
        ten_to(20) == 100_000_000_000_000_000_000,
{
    reveal_with_fuel(ten_to, 21);
}

proof fn lemma_decimal_len_below(n: nat, k: nat)
    requires
        k >= 1,
        n < ten_to(k),
    ensures
        1 <= decimal_text(n).len() <= k,
    decreases n,
{
    if n >= 10 {
        assert(ten_to(k) == 10 * ten_to((k - 1) as nat));
        if k == 1 {
            assert(ten_to(0) == 1);
        } else {
            lemma_decimal_len_below(n / 10, (k - 1) as nat);
        }
    }
}

proof fn lemma_decimal_len(n: nat)
    requires
        n < 0x1_0000_0000_0000_0000,
    ensures
        1 <= decimal_text(n).len() <= 20,
{
    lemma_ten_to_20();
    lemma_decimal_len_below(n, 20);
}

/// Appends the decimal notation of `n`, with zeros in front up to `width`
/// characters.
pub fn push_padded_decimal(text: &mut String, n: u64, width: usize)
    ensures
        final(text)@ == old(text)@ + padded_decimal(n as nat, width as nat),
{
    let len: usize = decimal_len(n);
    let ghost before = text@;
    let mut i: usize = len;
    while i < width
        invariant
            len <= i,
            len < width ==> i <= width,
            len >= width ==> i == len,
            text@ == before + Seq::new((i - len) as nat, |k: int| '0'),
        decreases width - i,
    {
        proof {
            reveal_strlit("0");
        }
        text.append("0");
        assert(text@ =~= before + Seq::new((i + 1 - len) as nat, |k: int| '0'));
        i = i + 1;
    }
    push_decimal(text, n);
    assert(text@ =~= before + padded_decimal(n as nat, width as nat));
}

/// The characters of a text, one by one.
pub fn chars_of(text: &str) -> (chars: Vec<char>)
    ensures
        chars@ == text@,
{
    broadcast use vstd::string::group_string_axioms;

    let mut chars: Vec<char> = Vec::new();
    let mut rest = text.chars();
    loop
        invariant
            rest.obeys_prophetic_iter_laws(),
            rest.decrease() is Some,
            chars@ + rest.remaining() == text@,
        decreases rest.decrease()->0,
    {
        match rest.next() {
            Some(c) => {
                chars.push(c);
                assert(chars@ + rest.remaining() =~= text@);
            },
            None => {
                assert(chars@ =~= text@);
                return chars;
            },
        }
    }
}

/// The digit that a character writes, if it writes one.
pub fn digit(c: char) -> (d: Option<u8>)
    ensures
        match d {
            Some(d) => digit_of(c) == Some(d as int) && d < 10,
            None => digit_of(c) is None,
        },
{
    if c == '0' {
        Some(0)
    } else if c == '1' {
        Some(1)
    } else if c == '2' {
        Some(2)
    } else if c == '3' {
        Some(3)
    } else if c == '4' {
        Some(4)
    } else if c == '5' {
        Some(5)
    } else if c == '6' {
        Some(6)
    } else if c == '7' {
        Some(7)
    } else if c == '8' {
        Some(8)
    } else if c == '9' {
        Some(9)
    } else {
        None
    }
}

/// The number that the characters from `from` up to `to` write, if they are
/// digits all.
pub fn parse_digits(chars: &Vec<char>, from: usize, to: usize) -> (r: Option<u32>)
    requires
        from <= to <= chars.len(),
        to - from <= 9,
    ensures
        match r {
            Some(n) => all_digits(chars@.subrange(from as int, to as int)) && n == digits_value(
                chars@.subrange(from as int, to as int),
            ),
            None => !all_digits(chars@.subrange(from as int, to as int)),
        },
        r matches Some(n) ==> (to - from == 2 ==> n < 100) && (to - from == 3 ==> n < 1_000) && (to
            - from == 4 ==> n < 10_000),
{
    let ghost text = chars@.subrange(from as int, to as int);
    let mut n: u32 = 0;
    let mut i: usize = from;
    assert(text.take(0) =~= Seq::<char>::empty());
    while i < to
        invariant
            from <= i <= to <= chars.len(),
            to - from <= 9,
            text == chars@.subrange(from as int, to as int),
            all_digits(text.take(i - from)),
            n == digits_value(text.take(i - from)),
            n < ten_to((i - from) as nat),
        decreases to - i,
    {
        proof {
            assert(text.take(i - from + 1).drop_last() =~= text.take(i - from));
            assert(text.take(i - from + 1).last() == chars@[i as int]);
            lemma_ten_to_small();
            assert(ten_to((i - from + 1) as nat) == 10 * ten_to((i - from) as nat));
        }
        match digit(chars[i]) {
            None => {
                assert(digit_of(text[i - from]) is None);
                return None;
            },
            Some(d) => {
                assert forall|k: int| 0 <= k < text.take(i - from + 1).len() implies (
                #[trigger] digit_of(text.take(i - from + 1)[k])) is Some by {
                    if k < i - from {
                        assert(text.take(i - from + 1)[k] == text.take(i - from)[k]);
                    }
                }
                n = 10 * n + d as u32;
            },
        }
        i = i + 1;
    }
    assert(text.take(to - from) =~= text);
    proof {
        lemma_ten_to_small();
    }
    Some(n)
}

proof fn lemma_ten_to_small()
    ensures
        ten_to(0) == 1,
        ten_to(1) == 10,
        ten_to(2) == 100,
        ten_to(3) == 1_000,
        ten_to(4) == 10_000,
        ten_to(5) == 100_000,
        ten_to(6) == 1_000_000,
        ten_to(7) == 10_000_000,
        ten_to(8) == 100_000_000,
        ten_to(9) == 1_000_000_000,
{
    reveal_with_fuel(ten_to, 10);
}

/// A string of digits is the decimal notation of the number that it writes,
/// with zeros in front up to the length of the string.
pub proof fn lemma_padded_digits(text: Seq<char>)
    requires
        text.len() >= 1,
        all_digits(text),
    ensures
        padded_decimal(digits_value(text), text.len()) == text,
        decimal_text(digits_value(text)).len() <= text.len(),
    decreases text.len(),
{
    let last = text.last();
    let d = digit_of(last).unwrap();
    assert(digit_of(text[text.len() - 1]) is Some);
    assert(digit_char(d) == last);
    let init = text.drop_last();
    let n = digits_value(text);
    if text.len() == 1 {
        assert(init.len() == 0);
        assert(digits_value(init) == 0);
        assert(n == d);
        assert(decimal_text(n) =~= text);
        assert(padded_decimal(n, text.len()) =~= text);
    } else {
        assert forall|i: int| 0 <= i < init.len() implies (#[trigger] digit_of(init[i])) is Some by {
            assert(init[i] == text[i]);
            assert(digit_of(text[i]) is Some);
        }
        lemma_padded_digits(init);
        let m = digits_value(init);
        assert(n == 10 * m + d);
        let zeros = |i: int| '0';
        if m == 0 {
            assert(n < 10);
            assert(decimal_text(n) =~= seq![last]);
            assert(decimal_text(m) =~= seq!['0']);
            assert(padded_decimal(m, init.len()) == init);
            assert(padded_decimal(n, text.len()) =~= init.push(last)) by {
                if init.len() == 1 {
                    assert(init =~= seq!['0']);
                    assert(padded_decimal(n, text.len()) =~= Seq::new(1, zeros) + seq![last]);
                } else {
                    assert(init =~= Seq::new((init.len() - 1) as nat, zeros) + seq!['0']);
                    assert(padded_decimal(n, text.len()) =~= Seq::new(
                        (text.len() - 1) as nat,
                        zeros,
                    ) + seq![last]);
                }
            }
            assert(init.push(last) =~= text);
        } else {
            assert(n >= 10);
            assert(n / 10 == m && n % 10 == d);
            assert(decimal_text(n) =~= decimal_text(m).push(last));
            let digits = decimal_text(m);
            assert(padded_decimal(m, init.len()) == init);
            if digits.len() >= init.len() {
                assert(digits == init);
                assert(padded_decimal(n, text.len()) =~= init.push(last));
            } else {
                assert(init =~= Seq::new((init.len() - digits.len()) as nat, zeros) + digits);
                assert(padded_decimal(n, text.len()) =~= (Seq::new(
                    (init.len() - digits.len()) as nat,
                    zeros,
                ) + digits).push(last));
            }
            assert(init.push(last) =~= text);
        }
    }
}

/// The decimal notation of a number is made of digits, and they write that
/// number.
pub proof fn lemma_decimal_text(n: nat)
    ensures
        decimal_text(n).len() >= 1,
        all_digits(decimal_text(n)),
        digits_value(decimal_text(n)) == n,
    decreases n,
{
    let text = decimal_text(n);
    if n < 10 {
        assert(text =~= seq![digit_char(n as int)]);
        assert(text.drop_last() =~= Seq::<char>::empty());
        assert(digits_value(text.drop_last()) == 0);
        assert(digit_of(text.last()) == Some(n as int));
    } else {
        lemma_decimal_text(n / 10);
        let front = decimal_text(n / 10);
        let c = digit_char((n % 10) as int);
        assert(text =~= front.push(c));
        assert(text.drop_last() =~= front);
        assert(text.last() == c);
        assert(digit_of(c) == Some((n % 10) as int));
        assert forall|i: int| 0 <= i < text.len() implies (#[trigger] digit_of(text[i])) is Some by {
            if i < front.len() {
                assert(text[i] == front[i]);
            }
        }
    }
}

proof fn lemma_zeros_in_front(zeros: nat, text: Seq<char>)
    requires
        all_digits(text),
    ensures
        all_digits(Seq::new(zeros, |i: int| '0') + text),
        digits_value(Seq::new(zeros, |i: int| '0') + text) == digits_value(text),
    decreases text.len(), zeros,
{
    let front = Seq::new(zeros, |i: int| '0');
    let full = front + text;
    assert forall|i: int| 0 <= i < full.len() implies (#[trigger] digit_of(full[i])) is Some by {
        if i >= zeros {
            assert(full[i] == text[i - zeros]);
            assert(digit_of(text[i - zeros]) is Some);
        }
    }
    if text.len() > 0 {
        assert forall|i: int| 0 <= i < text.drop_last().len() implies (#[trigger] digit_of(
            text.drop_last()[i],
        )) is Some by {
            assert(text.drop_last()[i] == text[i]);
            assert(digit_of(text[i]) is Some);
        }
        lemma_zeros_in_front(zeros, text.drop_last());
        assert(full.drop_last() =~= front + text.drop_last());
        assert(full.last() == text.last());
    } else if zeros > 0 {
        let fewer = Seq::new((zeros - 1) as nat, |i: int| '0');
        lemma_zeros_in_front((zeros - 1) as nat, text);
        assert(full.drop_last() =~= fewer + text);
        assert(full.last() == '0');
        assert(digits_value(text) == 0);
    } else {
        assert(full =~= text);
    }
}

/// A number of at most `width` digits, written with zeros in front up to
/// `width` characters, is `width` digits that write the number.
pub proof fn lemma_padded_reads_back(n: nat, width: nat)
    requires
        (width == 2 && n < 100) || (width == 3 && n < 1_000) || (width == 4 && n < 10_000),
    ensures
        padded_decimal(n, width).len() == width,
        all_digits(padded_decimal(n, width)),
        digits_value(padded_decimal(n, width)) == n,
{
    lemma_ten_to_small();
    lemma_decimal_len_below(n, width);
    lemma_decimal_text(n);
    let digits = decimal_text(n);
    if digits.len() < width {
        lemma_zeros_in_front((width - digits.len()) as nat, digits);
    }
}

} // verus!
