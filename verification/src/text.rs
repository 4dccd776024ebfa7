//! Text that the application composes: decimal numbers and quoted commands.

use vstd::prelude::*;

verus! {

/// `String::push` of the standard library: appends the character at the end of the string.
pub assume_specification[ String::push ](s: &mut String, c: char)
    ensures
        final(s)@ == old(s)@.push(c),
;

/// The character of a decimal digit.
pub open spec fn digit_char(d: nat) -> char {
    (48 + d) as char
}

/// The decimal notation of a number: no sign, no leading zero, `"0"` for zero.
pub open spec fn decimal_text(n: nat) -> Seq<char>
    decreases n,
{
    if n < 10 {
        seq![digit_char(n)]
    } else {
        decimal_text(n / 10).push(digit_char(n % 10))
    }
}

/// The number that a row of decimal digits stands for.
pub open spec fn decimal_value(text: Seq<char>) -> nat
    decreases text.len(),
{
    if text.len() == 0 {
        0
    } else {
        10 * decimal_value(text.drop_last()) + (text.last() as nat - '0' as nat) as nat
    }
}

/// A decimal notation is read back as the number it was written for. It holds the digits from
/// `0` to `9` alone, at least one, and does not begin with `0` unless it is `0` itself.
pub proof fn law_decimals_are_read_back(n: nat)
    ensures
        decimal_value(decimal_text(n)) == n,
        decimal_text(n).len() > 0,
        decimal_text(n).len() > 1 ==> decimal_text(n)[0] != '0',
        forall|i: int|
            0 <= i < decimal_text(n).len() ==> '0' <= #[trigger] decimal_text(n)[i] <= '9',
    decreases n,
{
    let text = decimal_text(n);
    if n < 10 {
        assert(text.drop_last() =~= seq![]);
        assert(decimal_value(text.drop_last()) == 0);
    } else {
        law_decimals_are_read_back(n / 10);
        assert(text.drop_last() =~= decimal_text(n / 10));
        if n < 100 {
            assert(decimal_text(n / 10) == seq![digit_char(n / 10)]);
        } else {
            law_decimals_are_read_back(n / 10 / 10);
        }
    }
}

/// Writes a number in decimal notation.
pub fn decimal(n: usize) -> (text: String)
    ensures
        text@ == decimal_text(n as nat),
        decimal_value(text@) == n,
        text@.len() > 0,
        text@.len() > 1 ==> text@[0] != '0',
        forall|i: int| 0 <= i < text@.len() ==> '0' <= #[trigger] text@[i] <= '9',
    decreases n,
{
    let mut text = if n < 10 {
        String::new()
    } else {
        decimal(n / 10)
    };
    let digit: u8 = (n % 10) as u8;
    text.push((48 + digit) as char);
    proof {
        assert(text@ =~= decimal_text(n as nat));
        law_decimals_are_read_back(n as nat);
    }
    text
}

/// Whether a character is a decimal digit.
pub open spec fn is_digit(c: char) -> bool {
    '0' <= c <= '9'
}

/// A decimal notation is not empty and holds digits alone.
pub proof fn lemma_decimal_digits(n: nat)
    ensures
        decimal_text(n).len() > 0,
        forall|i: int| 0 <= i < decimal_text(n).len() ==> is_digit(#[trigger] decimal_text(n)[i]),
    decreases n,
{
    if n >= 10 {
        lemma_decimal_digits(n / 10);
    }
}

/// Different numbers have different decimal notations.
pub proof fn lemma_decimal_injective(m: nat, n: nat)
    requires
        decimal_text(m) == decimal_text(n),
    ensures
        m == n,
    decreases m,
{
    lemma_decimal_digits(m);
    lemma_decimal_digits(n);
    if m < 10 {
        if n >= 10 {
            lemma_decimal_digits(n / 10);
            assert(decimal_text(n).len() > 1);
        } else {
            assert(decimal_text(m)[0] == digit_char(m));
            assert(decimal_text(n)[0] == digit_char(n));
        }
    } else if n < 10 {
        lemma_decimal_digits(m / 10);
        assert(decimal_text(m).len() > 1);
    } else {
        assert(decimal_text(m).last() == digit_char(m % 10));
        assert(decimal_text(n).last() == digit_char(n % 10));
        assert(decimal_text(m).drop_last() =~= decimal_text(m / 10));
        assert(decimal_text(n).drop_last() =~= decimal_text(n / 10));
        lemma_decimal_injective(m / 10, n / 10);
    }
}

/// A text with every double quote written twice.
pub open spec fn doubled_quotes(s: Seq<char>) -> Seq<char>
    decreases s.len(),
{
    if s.len() == 0 {
        seq![]
    } else if s.last() == '"' {
        doubled_quotes(s.drop_last()).push('"').push('"')
    } else {
        doubled_quotes(s.drop_last()).push(s.last())
    }
}

/// A text with every pair of double quotes written once, pairs counted from the end.
pub open spec fn halved_quotes(s: Seq<char>) -> Seq<char>
    decreases s.len(),
{
    if s.len() == 0 {
        seq![]
    } else if s.len() >= 2 && s.last() == '"' && s[s.len() - 2] == '"' {
        halved_quotes(s.take(s.len() - 2)).push('"')
    } else {
        halved_quotes(s.drop_last()).push(s.last())
    }
}

/// Doubling loses nothing: reading every pair of quotes as one gives the text back.
pub proof fn law_doubled_quotes_are_read_back(s: Seq<char>)
    ensures
        halved_quotes(doubled_quotes(s)) == s,
    decreases s.len(),
{
    if s.len() > 0 {
        let rest = doubled_quotes(s.drop_last());
        law_doubled_quotes_are_read_back(s.drop_last());
        if s.last() == '"' {
            assert(doubled_quotes(s).take(doubled_quotes(s).len() - 2) =~= rest);
        } else {
            assert(doubled_quotes(s).drop_last() =~= rest);
        }
        assert(s.drop_last().push(s.last()) =~= s);
    }
}

/// Doubling goes character by character: what becomes of a text is what becomes of its parts, one
/// after the other.
pub proof fn law_quotes_are_doubled_part_by_part(a: Seq<char>, b: Seq<char>)
    ensures
        doubled_quotes(a + b) == doubled_quotes(a) + doubled_quotes(b),
    decreases b.len(),
{
    if b.len() == 0 {
        assert(a + b =~= a);
        assert(doubled_quotes(a) + doubled_quotes(b) =~= doubled_quotes(a));
    } else {
        assert((a + b).drop_last() =~= a + b.drop_last());
        assert((a + b).last() == b.last());
        law_quotes_are_doubled_part_by_part(a, b.drop_last());
        assert(doubled_quotes(a + b) =~= doubled_quotes(a) + doubled_quotes(b));
    }
}

/// A double quote becomes two, and any other character stays as it is.
pub proof fn law_quotes_alone_are_doubled(c: char)
    ensures
        doubled_quotes(seq![]) == Seq::<char>::empty(),
        doubled_quotes(seq![c]) == (if c == '"' {
            seq!['"', '"']
        } else {
            seq![c]
        }),
{
    assert(seq![c].drop_last() =~= seq![]);
    assert(doubled_quotes(seq![c].drop_last()) == Seq::<char>::empty());
    assert(doubled_quotes(seq![c]) =~= if c == '"' {
        seq!['"', '"']
    } else {
        seq![c]
    });
}

/// Writes every double quote of a text twice.
pub fn double_quotes(s: &str) -> (text: String)
    ensures
        text@ == doubled_quotes(s@),
{
    let mut text = String::new();
    for c in it: s.chars()
        invariant
            it.seq() == s@,
            text@ == doubled_quotes(s@.take(it.index() as int)),
    {
        proof {
            assert(s@.take(it.index() + 1).drop_last() =~= s@.take(it.index() as int));
            assert(s@.take(it.index() + 1).last() == c);
        }
        text.push(c);
        if c == '"' {
            text.push(c);
        }
    }
    proof {
        assert(s@.take(s@.len() as int) =~= s@);
    }
    text
}

} // verus!
