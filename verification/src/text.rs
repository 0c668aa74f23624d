//! Decimal text of the counters, as the reports print them.

use vstd::prelude::*;
use vstd::string::*;
use crate::objects::Elapsed;

verus! {

/// The character that writes the digit `d`.
pub open spec fn digit_char(d: nat) -> char
    recommends
        d < 10,
{
    if d == 0 {
        '0'
    } else if d == 1 {
        '1'
    } else if d == 2 {
        '2'
    } else if d == 3 {
        '3'
    } else if d == 4 {
        '4'
    } else if d == 5 {
        '5'
    } else if d == 6 {
        '6'
    } else if d == 7 {
        '7'
    } else if d == 8 {
        '8'
    } else {
        '9'
    }
}

/// The digit that `c` writes; 0 for a character that is no digit.
pub open spec fn digit_value(c: char) -> nat {
    if c == '1' {
        1
    } else if c == '2' {
        2
    } else if c == '3' {
        3
    } else if c == '4' {
        4
    } else if c == '5' {
        5
    } else if c == '6' {
        6
    } else if c == '7' {
        7
    } else if c == '8' {
        8
    } else if c == '9' {
        9
    } else {
        0
    }
}

/// Whether `c` is one of the ten decimal digits.
pub open spec fn is_digit(c: char) -> bool {
    '0' <= c && c <= '9'
}

/// The number `n` in base ten, most significant digit first, without
/// leading zeros.
pub open spec fn decimal(n: nat) -> Seq<char>
    decreases n,
{
    if n < 10 {
        seq![digit_char(n)]
    } else {
        decimal(n / 10).push(digit_char(n % 10))
    }
}

/// The number that a sequence of digits writes in base ten.
pub open spec fn decimal_value(s: Seq<char>) -> nat
    decreases s.len(),
{
    if s.len() == 0 {
        0
    } else {
        decimal_value(s.drop_last()) * 10 + digit_value(s.last())
    }
}

/// The text of a number is made of digits only, starts with a zero only for
/// the number zero, and reads back as the number.
pub proof fn lemma_decimal_reads_back(n: nat)
    ensures
        decimal(n).len() >= 1,
        forall|i: int| 0 <= i < decimal(n).len() ==> is_digit(#[trigger] decimal(n)[i]),
        decimal(n)[0] == '0' <==> n == 0,
        decimal_value(decimal(n)) == n,
    decreases n,
{
    if n < 10 {
        assert(decimal(n).drop_last() =~= Seq::<char>::empty());
        assert(decimal_value(decimal(n).drop_last()) == 0);
    } else {
        lemma_decimal_reads_back(n / 10);
        let head = decimal(n / 10);
        assert(decimal(n).drop_last() =~= head);
        assert(decimal(n).last() == digit_char(n % 10));
        assert(decimal(n)[0] == head[0]);
        assert forall|i: int| 0 <= i < decimal(n).len() implies is_digit(
            #[trigger] decimal(n)[i],
        ) by {
            if i < head.len() {
                assert(decimal(n)[i] == head[i]);
            }
        }
    }
}

/// Two numbers with the same text are the same number.
pub proof fn law_decimal_injective(a: nat, b: nat)
    requires
        decimal(a) == decimal(b),
    ensures
        a == b,
{
    lemma_decimal_reads_back(a);
    lemma_decimal_reads_back(b);
}

/// The one-character text of a digit.
fn digit_str(d: u8) -> (s: &'static str)
    requires
        d < 10,
    ensures
        s@ == seq![digit_char(d as nat)],
{
    proof {
        reveal_strlit("0");
        reveal_strlit("1");
        reveal_strlit("2");
        reveal_strlit("3");
        reveal_strlit("4");
        reveal_strlit("5");
        reveal_strlit("6");
        reveal_strlit("7");
        reveal_strlit("8");
        reveal_strlit("9");
    }
    let s = if d == 0 {
        "0"
    } else if d == 1 {
        "1"
    } else if d == 2 {
        "2"
    } else if d == 3 {
        "3"
    } else if d == 4 {
        "4"
    } else if d == 5 {
        "5"
    } else if d == 6 {
        "6"
    } else if d == 7 {
        "7"
    } else if d == 8 {
        "8"
    } else {
        "9"
    };
    assert(s@ =~= seq![digit_char(d as nat)]);
    s
}

/// Appends the decimal text of `n` to `out`.
pub fn push_decimal(out: &mut String, n: u128)
    ensures
        final(out)@ == old(out)@ + decimal(n as nat),
    decreases n,
{
    if n >= 10 {
        push_decimal(out, n / 10);
    }
    let d: u8 = (n % 10) as u8;
    out.append(digit_str(d));
    proof {
        if n >= 10 {
            assert(final(out)@ =~= old(out)@ + decimal(n as nat));
        } else {
            assert(final(out)@ =~= old(out)@ + decimal(n as nat));
        }
    }
}

/// The decimal text of `n`.
pub fn to_decimal(n: u128) -> (s: String)
    ensures
        s@ == decimal(n as nat),
{
    let mut s = String::new();
    push_decimal(&mut s, n);
    assert(s@ =~= decimal(n as nat));
    s
}

/// A count as the summary shows it: below a thousand the number itself, below
/// a million the thousands with the number in brackets, and from a million on
/// the millions with the number in brackets.
pub open spec fn nice_text(n: nat) -> Seq<char> {
    if n < 1_000 {
        decimal(n)
    } else if n < 1_000_000 {
        decimal(n / 1_000) + seq!['K', ' ', '('] + decimal(n) + seq![')']
    } else {
        decimal(n / 1_000_000) + seq!['M', ' ', '('] + decimal(n) + seq![')']
    }
}

/// Renders a count for the summary.
pub fn nice_number(input: usize) -> (s: String)
    ensures
        s@ == nice_text(input as nat),
{
    proof {
        reveal_strlit("K (");
        reveal_strlit("M (");
        reveal_strlit(")");
    }
    let mut s = String::new();
    if input < 1_000 {
        push_decimal(&mut s, input as u128);
        assert(s@ =~= nice_text(input as nat));
    } else if input < 1_000_000 {
        push_decimal(&mut s, (input / 1_000) as u128);
        s.append("K (");
        push_decimal(&mut s, input as u128);
        s.append(")");
        assert("K ("@ =~= seq!['K', ' ', '(']);
        assert(")"@ =~= seq![')']);
        assert(s@ =~= nice_text(input as nat));
    } else {
        push_decimal(&mut s, (input / 1_000_000) as u128);
        s.append("M (");
        push_decimal(&mut s, input as u128);
        s.append(")");
        assert("M ("@ =~= seq!['M', ' ', '(']);
        assert(")"@ =~= seq![')']);
        assert(s@ =~= nice_text(input as nat));
    }
    s
}

/// The text that `indicatif::HumanDuration` shows for a span of `secs`
/// seconds and `nanos` nanoseconds.
pub uninterp spec fn human_duration_text(secs: u64, nanos: u32) -> Seq<char>;

/// `indicatif::HumanDuration`, through its `Display`: the span rounded to
/// its largest fitting unit, in words. The text depends on the span alone
/// as long as the count of units fits the machine's smallest word, which the
/// bound on the seconds sees to.
#[verifier::external_body]
fn human_duration(secs: u64, nanos: u32) -> (s: String)
    requires
        secs <= u32::MAX,
        nanos < 1_000_000_000,
    ensures
        s@ == human_duration_text(secs, nanos),
{
    indicatif::HumanDuration(std::time::Duration::new(secs, nanos)).to_string()
}

/// The duration of a scan as the summary shows it: up to a second the
/// milliseconds with their unit, above a second the text in words `human`.
pub open spec fn duration_text(d: Elapsed, human: Seq<char>) -> Seq<char> {
    if d.millis() > 1_000 {
        human
    } else {
        decimal(d.millis()) + seq!['m', 's']
    }
}

/// Picks the text for the duration of a scan, given its text in words.
pub fn choose_duration_text(d: &Elapsed, human: String) -> (s: String)
    ensures
        s@ == duration_text(*d, human@),
{
    let ms = d.as_millis();
    if ms > 1_000 {
        human
    } else {
        proof {
            reveal_strlit("ms");
        }
        let mut s = to_decimal(ms);
        s.append("ms");
        assert("ms"@ =~= seq!['m', 's']);
        s
    }
}

/// Renders the duration of a scan for the summary. The span has to be one
/// that the words state alike on every machine: less than 2^32 seconds.
pub fn duration_to_display(d: &Elapsed) -> (s: String)
    requires
        d.wf(),
        d.secs <= u32::MAX,
    ensures
        s@ == duration_text(*d, human_duration_text(d.secs, d.nanos)),
{
    let human = human_duration(d.secs, d.nanos);
    choose_duration_text(d, human)
}

} // verus!
