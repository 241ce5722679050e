//! Text as sequences of characters: conversion to and from strings,
//! whitespace-separated fields, and decimal numbers that fit in a byte.

use vstd::prelude::*;

verus! {

/// `Iterator::collect` into a `String`, over the characters of a vector.
/// The contract, which is taken on trust, claims that the string holds the
/// characters of `chars`, in order, as the standard library documents.
#[verifier::external_body]
pub(crate) fn collect_string(chars: &Vec<char>) -> (r: String)
    ensures
        r@ == chars@,
{
    chars.iter().collect()
}

/// The string that holds the characters of `chars`, in order.
pub fn string_of(chars: &Vec<char>) -> (r: String)
    ensures
        r@ == chars@,
{
    collect_string(chars)
}

/// The characters of `text`, in order.
pub fn chars_of(text: &str) -> (r: Vec<char>)
    ensures
        r@ == text@,
{
    let mut out: Vec<char> = Vec::new();
    for c in it: text.chars()
        invariant
            out@ == it.seq().take(it.index()),
            it.seq() == text@,
    {
        out.push(c);
    }
    out
}

/// White space, as Unicode defines it: the characters that separate the
/// fields of a text.
pub open spec fn is_space(c: char) -> bool {
    let u = c as u32;
    ||| 0x09 <= u <= 0x0D
    ||| u == 0x20
    ||| u == 0x85
    ||| u == 0xA0
    ||| u == 0x1680
    ||| 0x2000 <= u <= 0x200A
    ||| u == 0x2028
    ||| u == 0x2029
    ||| u == 0x202F
    ||| u == 0x205F
    ||| u == 0x3000
}

/// No character of `s` is white space.
pub open spec fn no_space(s: Seq<char>) -> bool {
    forall|i: int| 0 <= i < s.len() ==> !is_space(#[trigger] s[i])
}

/// The fields of a text: its maximal runs of characters that are not white
/// space, in order. Stated from the end of the text backwards: a space adds
/// nothing, a character after another character of a field lengthens the
/// last field, and any other character starts a new field.
pub open spec fn fields(s: Seq<char>) -> Seq<Seq<char>>
    decreases s.len(),
{
    if s.len() == 0 {
        seq![]
    } else {
        let before = fields(s.drop_last());
        if is_space(s.last()) {
            before
        } else if s.len() >= 2 && !is_space(s[s.len() - 2]) && before.len() > 0 {
            before.drop_last().push(before.last().push(s.last()))
        } else {
            before.push(seq![s.last()])
        }
    }
}

/// `words`, each followed by one space character, then `tail`.
pub open spec fn spaced(words: Seq<Seq<char>>, tail: Seq<char>) -> Seq<char>
    decreases words.len(),
{
    if words.len() == 0 {
        tail
    } else {
        words[0] + seq![' '] + spaced(words.skip(1), tail)
    }
}

/// An ASCII decimal digit.
pub open spec fn is_digit(c: char) -> bool {
    '0' <= c <= '9'
}

/// Every character of `s` is a decimal digit.
pub open spec fn all_digits(s: Seq<char>) -> bool {
    forall|i: int| 0 <= i < s.len() ==> is_digit(#[trigger] s[i])
}

/// The number that the digits of `s` write in base ten; 0 for no digits.
pub open spec fn decimal_value(s: Seq<char>) -> nat
    decreases s.len(),
{
    if s.len() == 0 {
        0
    } else {
        (10 * decimal_value(s.drop_last()) + (s.last() as u32 - '0' as u32)) as nat
    }
}

/// The number below 256 that `s` writes: one or more decimal digits,
/// leading zeros allowed, after at most one `+` sign. `None` for any other
/// text, and for a number above 255.
pub open spec fn parse_byte(s: Seq<char>) -> Option<u8> {
    let digits = if s.len() > 0 && s[0] == '+' {
        s.skip(1)
    } else {
        s
    };
    if digits.len() > 0 && all_digits(digits) && decimal_value(digits) <= 255 {
        Some(decimal_value(digits) as u8)
    } else {
        None
    }
}

/// The digit character for `d`, where `d < 10`.
pub open spec fn digit(d: nat) -> char {
    (('0' as u32) + d as u32) as char
}

/// `n` in base ten, without leading zeros.
pub open spec fn decimal(n: nat) -> Seq<char>
    decreases n,
{
    if n < 10 {
        seq![digit(n)]
    } else {
        decimal(n / 10).push(digit(n % 10))
    }
}

/// A text that ends in a character of a field has at least one field, and
/// its last field ends in that character.
pub proof fn lemma_fields_nonempty(s: Seq<char>)
    requires
        s.len() > 0,
        !is_space(s.last()),
    ensures
        fields(s).len() > 0,
    decreases s.len(),
{
    if s.len() >= 2 && !is_space(s[s.len() - 2]) {
        lemma_fields_nonempty(s.drop_last());
    }
}

/// Every field holds at least one character and no white space.
pub proof fn lemma_fields_are_words(s: Seq<char>)
    ensures
        forall|k: int|
            0 <= k < fields(s).len() ==> (#[trigger] fields(s)[k]).len() > 0 && no_space(
                fields(s)[k],
            ),
    decreases s.len(),
{
    if s.len() > 0 {
        lemma_fields_are_words(s.drop_last());
        let before = fields(s.drop_last());
        if !is_space(s.last()) && s.len() >= 2 && !is_space(s[s.len() - 2]) && before.len() > 0 {
            let word = before.last().push(s.last());
            assert forall|k: int| 0 <= k < fields(s).len() implies (#[trigger] fields(s)[k]).len()
                > 0 && no_space(fields(s)[k]) by {
                if k == fields(s).len() - 1 {
                    assert(fields(s)[k] == word);
                    assert forall|j: int| 0 <= j < word.len() implies !is_space(
                        #[trigger] word[j],
                    ) by {
                        if j < before.last().len() {
                            assert(word[j] == before.last()[j]);
                        }
                    }
                } else {
                    assert(fields(s)[k] == before[k]);
                }
            }
        }
    }
}

/// A text of one or more characters, none of them white space, is its own
/// single field.
pub proof fn lemma_fields_of_word(w: Seq<char>)
    requires
        w.len() > 0,
        no_space(w),
    ensures
        fields(w) == seq![w],
    decreases w.len(),
{
    let before = w.drop_last();
    if w.len() == 1 {
        assert(fields(before) == Seq::<Seq<char>>::empty());
        assert(seq![w.last()] =~= w);
        assert(fields(w) =~= seq![w]);
    } else {
        assert(no_space(before)) by {
            assert forall|i: int| 0 <= i < before.len() implies !is_space(
                #[trigger] before[i],
            ) by {
                assert(before[i] == w[i]);
            }
        }
        lemma_fields_of_word(before);
        assert(!is_space(w[w.len() - 2]));
        assert(seq![before].drop_last().push(before.push(w.last())) =~= seq![
            before.push(w.last()),
        ]);
        assert(before.push(w.last()) =~= w);
    }
}

/// After a text that is empty or ends in white space, the fields of what
/// follows are simply added.
pub proof fn lemma_fields_concat(a: Seq<char>, b: Seq<char>)
    requires
        a.len() == 0 || is_space(a.last()),
    ensures
        fields(a + b) == fields(a) + fields(b),
    decreases b.len(),
{
    if b.len() == 0 {
        assert(a + b =~= a);
        assert(fields(a) + fields(b) =~= fields(a));
    } else {
        let s = a + b;
        let shorter = b.drop_last();
        assert(s.drop_last() =~= a + shorter);
        assert(s.last() == b.last());
        lemma_fields_concat(a, shorter);
        if is_space(b.last()) {
        } else if b.len() >= 2 && !is_space(b[b.len() - 2]) {
            assert(s[s.len() - 2] == b[b.len() - 2]);
            lemma_fields_nonempty(shorter);
            let fa = fields(a);
            let fb = fields(shorter);
            assert((fa + fb).drop_last().push((fa + fb).last().push(b.last())) =~= fa
                + fb.drop_last().push(fb.last().push(b.last())));
        } else {
            if s.len() >= 2 {
                if b.len() >= 2 {
                    assert(s[s.len() - 2] == b[b.len() - 2]);
                } else {
                    assert(s[s.len() - 2] == a.last());
                }
            }
            assert(fields(a + shorter).push(seq![b.last()]) =~= fields(a) + fields(
                shorter,
            ).push(seq![b.last()]));
        }
    }
}

/// Words that are written with one space after each, before a tail, are
/// read back as those words, followed by the fields of the tail.
pub proof fn lemma_fields_of_spaced(words: Seq<Seq<char>>, tail: Seq<char>)
    requires
        forall|k: int| 0 <= k < words.len() ==> (#[trigger] words[k]).len() > 0 && no_space(words[k]),
    ensures
        fields(spaced(words, tail)) == words + fields(tail),
    decreases words.len(),
{
    if words.len() == 0 {
        assert(words + fields(tail) =~= fields(tail));
    } else {
        let w = words[0];
        let head = w + seq![' '];
        let rest = spaced(words.skip(1), tail);
        assert forall|k: int| 0 <= k < words.skip(1).len() implies (#[trigger] words.skip(
            1,
        )[k]).len() > 0 && no_space(words.skip(1)[k]) by {
            assert(words.skip(1)[k] == words[k + 1]);
        }
        lemma_fields_of_spaced(words.skip(1), tail);
        assert(is_space(' '));
        assert(head.last() == ' ');
        lemma_fields_concat(head, rest);
        assert(head.drop_last() =~= w);
        lemma_fields_of_word(w);
        assert(fields(head) == seq![w]);
        assert(spaced(words, tail) =~= head + rest);
        assert(seq![w] + (words.skip(1) + fields(tail)) =~= words + fields(tail));
    }
}

/// The digits that write `n` are read back as `n`.
pub proof fn lemma_decimal_value(n: nat)
    ensures
        decimal(n).len() > 0,
        all_digits(decimal(n)),
        no_space(decimal(n)),
        decimal(n)[0] != '+',
        decimal_value(decimal(n)) == n,
    decreases n,
{
    let s = decimal(n);
    if n < 10 {
        assert(s.drop_last() =~= Seq::<char>::empty());
        assert(s.last() == digit(n));
        assert(decimal_value(s.drop_last()) == 0);
    } else {
        lemma_decimal_value(n / 10);
        let before = decimal(n / 10);
        assert(s.drop_last() =~= before);
        assert(s.last() == digit(n % 10));
        assert forall|i: int| 0 <= i < s.len() implies is_digit(#[trigger] s[i]) && !is_space(
            s[i],
        ) by {
            if i < before.len() {
                assert(s[i] == before[i]);
            }
        }
        assert(s[0] == before[0]);
    }
}

/// A byte that is written in base ten is parsed as itself.
pub proof fn lemma_parse_decimal(n: u8)
    ensures
        parse_byte(decimal(n as nat)) == Some(n),
{
    lemma_decimal_value(n as nat);
}

/// Whether `c` is white space.
pub fn is_whitespace(c: char) -> (r: bool)
    ensures
        r == is_space(c),
{
    let u = c as u32;
    (0x09 <= u && u <= 0x0D) || u == 0x20 || u == 0x85 || u == 0xA0 || u == 0x1680 || (0x2000
        <= u && u <= 0x200A) || u == 0x2028 || u == 0x2029 || u == 0x202F || u == 0x205F || u
        == 0x3000
}

/// The fields of `text`: its maximal runs of characters that are not white
/// space.
pub fn split_fields(text: &Vec<char>) -> (r: Vec<Vec<char>>)
    ensures
        r@.len() == fields(text@).len(),
        forall|k: int| 0 <= k < r@.len() ==> (#[trigger] r@[k])@ == fields(text@)[k],
{
    let mut out: Vec<Vec<char>> = Vec::new();
    let mut cur: Vec<char> = Vec::new();
    let mut in_word = false;
    let ghost mut done: Seq<Seq<char>> = seq![];
    let n = text.len();
    let mut i: usize = 0;
    assert(text@.take(0) =~= seq![]);
    while i < n
        invariant
            n == text@.len(),
            i <= n,
            out@.len() == done.len(),
            forall|k: int| 0 <= k < out@.len() ==> (#[trigger] out@[k])@ == done[k],
            in_word == (i > 0 && !is_space(text@[i - 1])),
            in_word ==> cur@.len() > 0,
            !in_word ==> cur@.len() == 0,
            fields(text@.take(i as int)) == if in_word { done.push(cur@) } else { done },
        decreases n - i,
    {
        let c = text[i];
        let ghost prefix = text@.take(i as int);
        let ghost next = text@.take(i + 1);
        assert(next.drop_last() =~= prefix);
        assert(next.last() == c);
        assert(i > 0 ==> next[next.len() - 2] == text@[i - 1]);
        if is_whitespace(c) {
            if in_word {
                proof {
                    done = done.push(cur@);
                }
                out.push(cur);
                cur = Vec::new();
                in_word = false;
            }
        } else {
            let ghost word = cur@;
            cur.push(c);
            proof {
                if in_word {
                    assert(done.push(word).drop_last() =~= done);
                    assert(done.push(word).last() == word);
                    assert(fields(next) == done.push(word.push(c)));
                } else {
                    assert(cur@ =~= seq![c]);
                    assert(fields(next) == done.push(seq![c]));
                }
            }
            in_word = true;
        }
        i = i + 1;
    }
    assert(text@.take(n as int) =~= text@);
    if in_word {
        proof {
            done = done.push(cur@);
        }
        out.push(cur);
    }
    out
}

/// One more digit `c` after the digits `before` multiplies their value by
/// ten and adds the digit.
proof fn lemma_decimal_step(before: Seq<char>, c: char)
    requires
        all_digits(before),
        is_digit(c),
    ensures
        all_digits(before.push(c)),
        decimal_value(before.push(c)) == 10 * decimal_value(before) + (c as u32 - '0' as u32),
{
    let after = before.push(c);
    assert(after.drop_last() =~= before);
    assert(after.last() == c);
    assert forall|k: int| 0 <= k < after.len() implies is_digit(#[trigger] after[k]) by {
        if k < before.len() {
            assert(before[k] == after[k]);
        }
    }
}

/// The number below 256 that `text` writes in base ten, if it writes one.
pub fn parse_u8(text: &Vec<char>) -> (r: Option<u8>)
    ensures
        r == parse_byte(text@),
{
    let n = text.len();
    let start: usize = if n > 0 && text[0] == '+' {
        1
    } else {
        0
    };
    if start >= n {
        return None;
    }
    let ghost digits = text@.skip(start as int);
    let ghost mut seen: Seq<char> = seq![];
    assert(digits =~= if text@.len() > 0 && text@[0] == '+' { text@.skip(1) } else { text@ });
    assert(digits.take(0) =~= seen);
    let mut value: u32 = 0;
    let mut i: usize = start;
    while i < n
        invariant
            n == text@.len(),
            start <= i <= n,
            digits.len() == n - start,
            forall|k: int| 0 <= k < digits.len() ==> digits[k] == text@[k + start],
            parse_byte(text@) == if digits.len() > 0 && all_digits(digits) && decimal_value(digits)
                <= 255 {
                Some(decimal_value(digits) as u8)
            } else {
                None
            },
            seen == digits.take(i - start),
            all_digits(seen),
            value <= 256,
            decimal_value(seen) <= 255 ==> value == decimal_value(seen),
            decimal_value(seen) > 255 ==> value == 256,
        decreases n - i,
    {
        let c = text[i];
        assert(digits[i - start] == c);
        if !('0' <= c && c <= '9') {
            assert(!is_digit(digits[i - start]));
            assert(!all_digits(digits));
            return None;
        }
        let d: u32 = (c as u32) - ('0' as u32);
        proof {
            lemma_decimal_step(seen, c);
            assert(digits.take(i - start + 1) =~= seen.push(c));
            seen = seen.push(c);
        }
        value = if value * 10 + d > 255 {
            256
        } else {
            value * 10 + d
        };
        i = i + 1;
    }
    assert(digits.take(n - start) =~= digits);
    if value <= 255 {
        Some(value as u8)
    } else {
        None
    }
}

/// `n` in base ten, without leading zeros.
pub fn format_u8(n: u8) -> (r: Vec<char>)
    ensures
        r@ == decimal(n as nat),
{
    let mut out: Vec<char> = Vec::new();
    if n >= 100 {
        out.push(digit_char(n / 100));
    }
    if n >= 10 {
        out.push(digit_char((n / 10) % 10));
    }
    out.push(digit_char(n % 10));
    proof {
        let v = n as nat;
        reveal_with_fuel(decimal, 3);
        if v >= 100 {
            assert(v / 10 / 10 == v / 100);
            assert(out@ =~= decimal(v));
        } else if v >= 10 {
            assert(out@ =~= decimal(v));
        } else {
            assert(out@ =~= decimal(v));
        }
    }
    out
}

/// The digit character for `d`.
fn digit_char(d: u8) -> (r: char)
    requires
        d < 10,
    ensures
        r == digit(d as nat),
        is_digit(r),
        r as u32 - '0' as u32 == d,
        !is_space(r),
        r != '+',
{
    match d {
        0 => '0',
        1 => '1',
        2 => '2',
        3 => '3',
        4 => '4',
        5 => '5',
        6 => '6',
        7 => '7',
        8 => '8',
        _ => '9',
    }
}

} // verus!
