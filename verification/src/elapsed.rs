//! The text shown for an elapsed time: `minutes:seconds:split_seconds`, each
//! field in plain decimal. Minutes are unbounded, nothing is padded, and the
//! last field counts whole hundredths of a second.

use vstd::prelude::*;
use vstd::string::*;

verus! {

/// The character of one decimal digit.
pub open spec fn digit(d: nat) -> char {
    if d == 0 {
        '0'
    } else if d == 1 {
        '1'
    } else if d == 2 {
        '2'
    } else if d == 3 {
        '3'
    } else if d == 4 {
        '4'
    } else if d == 5 {
        '5'
    } else if d == 6 {
        '6'
    } else if d == 7 {
        '7'
    } else if d == 8 {
        '8'
    } else {
        '9'
    }
}

/// The decimal numeral of `n`: no sign, no padding, no leading zero but for
/// `0` itself.
pub open spec fn decimal(n: nat) -> Seq<char>
    decreases n,
{
    if n < 10 {
        seq![digit(n)]
    } else {
        decimal(n / 10).push(digit(n % 10))
    }
}

/// Whole minutes in `ms` milliseconds. There is no larger unit.
pub open spec fn minutes_of(ms: nat) -> nat {
    ms / 60_000
}

/// Whole seconds left once the minutes are taken out.
pub open spec fn seconds_of(ms: nat) -> nat {
    (ms % 60_000) / 1_000
}

/// Whole hundredths of a second left once the seconds are taken out,
/// truncated, never rounded.
pub open spec fn split_seconds_of(ms: nat) -> nat {
    (ms % 1_000) / 10
}

/// The text for `ms` elapsed milliseconds.
pub open spec fn elapsed_text(ms: nat) -> Seq<char> {
    decimal(minutes_of(ms)) + seq![':'] + decimal(seconds_of(ms)) + seq![':'] + decimal(
        split_seconds_of(ms),
    )
}

/// The text of a stopwatch that has not run: that of no elapsed time.
pub open spec fn zero_text() -> Seq<char> {
    seq!['0', ':', '0', ':', '0']
}

/// `text` is the text of some elapsed time.
pub open spec fn is_elapsed_text(text: Seq<char>) -> bool {
    exists|ms: nat| text == #[trigger] elapsed_text(ms)
}

/// The text of a stopwatch that has not run is that of no elapsed time.
pub proof fn lemma_zero_text()
    ensures
        zero_text() == elapsed_text(0),
{
    assert(zero_text() =~= elapsed_text(0));
}

/// The hundredths of a second that the text of `ms` stands for.
pub open spec fn hundredths_of(ms: nat) -> nat {
    minutes_of(ms) * 6_000 + seconds_of(ms) * 100 + split_seconds_of(ms)
}

/// The time shown for `a_ms` is not later than the time shown for `b_ms`:
/// the three fields compared in order, minutes first.
pub open spec fn shown_not_after(a_ms: nat, b_ms: nat) -> bool {
    ||| minutes_of(a_ms) < minutes_of(b_ms)
    ||| minutes_of(a_ms) == minutes_of(b_ms) && seconds_of(a_ms) < seconds_of(b_ms)
    ||| minutes_of(a_ms) == minutes_of(b_ms) && seconds_of(a_ms) == seconds_of(b_ms)
        && split_seconds_of(a_ms) <= split_seconds_of(b_ms)
}

/// Seconds stay below 60 and split seconds below 100, and the three fields
/// together are the elapsed time cut down to whole hundredths of a second:
/// nothing is rounded up, and minutes never roll over into a larger unit.
pub proof fn lemma_fields(ms: nat)
    ensures
        seconds_of(ms) < 60,
        split_seconds_of(ms) < 100,
        hundredths_of(ms) == ms / 10,
{
}

/// A later reading of the clock never shows an earlier time.
pub proof fn lemma_shown_never_goes_back(earlier_ms: nat, later_ms: nat)
    requires
        earlier_ms <= later_ms,
    ensures
        shown_not_after(earlier_ms, later_ms),
        hundredths_of(earlier_ms) <= hundredths_of(later_ms),
{
    lemma_fields(earlier_ms);
    lemma_fields(later_ms);
}

/// A numeral is never empty and holds no colon.
pub proof fn lemma_decimal_shape(n: nat)
    ensures
        decimal(n).len() >= 1,
        n >= 10 ==> decimal(n).len() >= 2,
        forall|i: int| 0 <= i < decimal(n).len() ==> decimal(n)[i] != ':',
    decreases n,
{
    if n >= 10 {
        lemma_decimal_shape(n / 10);
    }
}

/// Two numbers with the same numeral are the same number.
pub proof fn lemma_decimal_injective(a: nat, b: nat)
    requires
        decimal(a) == decimal(b),
    ensures
        a == b,
    decreases a,
{
    lemma_decimal_shape(a);
    lemma_decimal_shape(b);
    if a < 10 {
        assert(decimal(a)[0] == digit(a));
        assert(decimal(b)[0] == digit(b));
    } else {
        let (head_a, head_b) = (decimal(a / 10), decimal(b / 10));
        assert(decimal(a).drop_last() =~= head_a);
        assert(decimal(b).drop_last() =~= head_b);
        assert(decimal(a).last() == digit(a % 10));
        assert(decimal(b).last() == digit(b % 10));
        lemma_decimal_injective(a / 10, b / 10);
    }
}

/// A text is cut at its first colon in one way only: where two texts made of
/// a colon-free head, a colon and a tail are the same, so are the heads and
/// the tails.
proof fn lemma_split_at_colon(
    head_a: Seq<char>,
    tail_a: Seq<char>,
    head_b: Seq<char>,
    tail_b: Seq<char>,
)
    requires
        head_a + seq![':'] + tail_a == head_b + seq![':'] + tail_b,
        forall|i: int| 0 <= i < head_a.len() ==> head_a[i] != ':',
        forall|i: int| 0 <= i < head_b.len() ==> head_b[i] != ':',
    ensures
        head_a == head_b,
        tail_a == tail_b,
{
    let joined_a = head_a + seq![':'] + tail_a;
    let joined_b = head_b + seq![':'] + tail_b;
    assert(joined_a[head_a.len() as int] == ':');
    assert(joined_b[head_b.len() as int] == ':');
    if head_a.len() < head_b.len() {
        assert(joined_b[head_a.len() as int] == head_b[head_a.len() as int]);
    }
    if head_b.len() < head_a.len() {
        assert(joined_a[head_b.len() as int] == head_a[head_b.len() as int]);
    }
    assert(head_a.len() == head_b.len());
    assert forall|i: int| 0 <= i < head_a.len() implies head_a[i] == head_b[i] by {
        assert(joined_a[i] == head_a[i]);
        assert(joined_b[i] == head_b[i]);
    }
    assert(head_a =~= head_b);
    assert(joined_a.len() == joined_b.len());
    assert forall|i: int| 0 <= i < tail_a.len() implies tail_a[i] == tail_b[i] by {
        assert(joined_a[head_a.len() + 1 + i] == tail_a[i]);
        assert(joined_b[head_b.len() + 1 + i] == tail_b[i]);
    }
    assert(tail_a =~= tail_b);
}

/// Two elapsed times have the same three fields exactly when they agree in
/// whole hundredths of a second.
pub proof fn lemma_fields_tell_hundredths(a_ms: nat, b_ms: nat)
    ensures
        a_ms / 10 == b_ms / 10 <==> {
            &&& minutes_of(a_ms) == minutes_of(b_ms)
            &&& seconds_of(a_ms) == seconds_of(b_ms)
            &&& split_seconds_of(a_ms) == split_seconds_of(b_ms)
        },
{
    lemma_fields(a_ms);
    lemma_fields(b_ms);
    if a_ms / 10 == b_ms / 10 {
        assert(a_ms / 60_000 == (a_ms / 10) / 6_000);
        assert(b_ms / 60_000 == (b_ms / 10) / 6_000);
        assert(seconds_of(a_ms) * 100 + split_seconds_of(a_ms) == seconds_of(b_ms) * 100
            + split_seconds_of(b_ms));
    }
}

/// The three numerals can be read back from the text: two texts are the same
/// only where each numeral is the same.
proof fn lemma_text_tells_numerals(a_ms: nat, b_ms: nat)
    requires
        elapsed_text(a_ms) == elapsed_text(b_ms),
    ensures
        decimal(minutes_of(a_ms)) == decimal(minutes_of(b_ms)),
        decimal(seconds_of(a_ms)) == decimal(seconds_of(b_ms)),
        decimal(split_seconds_of(a_ms)) == decimal(split_seconds_of(b_ms)),
{
    let (min_a, sec_a, split_a) = (
        decimal(minutes_of(a_ms)),
        decimal(seconds_of(a_ms)),
        decimal(split_seconds_of(a_ms)),
    );
    let (min_b, sec_b, split_b) = (
        decimal(minutes_of(b_ms)),
        decimal(seconds_of(b_ms)),
        decimal(split_seconds_of(b_ms)),
    );
    lemma_decimal_shape(minutes_of(a_ms));
    lemma_decimal_shape(minutes_of(b_ms));
    lemma_decimal_shape(seconds_of(a_ms));
    lemma_decimal_shape(seconds_of(b_ms));
    assert(elapsed_text(a_ms) =~= min_a + seq![':'] + (sec_a + seq![':'] + split_a));
    assert(elapsed_text(b_ms) =~= min_b + seq![':'] + (sec_b + seq![':'] + split_b));
    lemma_split_at_colon(min_a, sec_a + seq![':'] + split_a, min_b, sec_b + seq![':'] + split_b);
    lemma_split_at_colon(sec_a, split_a, sec_b, split_b);
}

/// Two elapsed times have the same text exactly when they agree in whole
/// hundredths of a second: the text tells as much as the three fields, and no
/// more.
pub proof fn lemma_text_tells_hundredths(a_ms: nat, b_ms: nat)
    ensures
        elapsed_text(a_ms) == elapsed_text(b_ms) <==> a_ms / 10 == b_ms / 10,
{
    lemma_fields_tell_hundredths(a_ms, b_ms);
    if elapsed_text(a_ms) == elapsed_text(b_ms) {
        lemma_text_tells_numerals(a_ms, b_ms);
        lemma_decimal_injective(minutes_of(a_ms), minutes_of(b_ms));
        lemma_decimal_injective(seconds_of(a_ms), seconds_of(b_ms));
        lemma_decimal_injective(split_seconds_of(a_ms), split_seconds_of(b_ms));
    }
}

/// One decimal digit as a string.
fn digit_str(d: u128) -> (s: &'static str)
    requires
        d < 10,
    ensures
        s@ == seq![digit(d as nat)],
{
    proof {
        reveal_strlit("0");
        reveal_strlit("1");
        reveal_strlit("2");
        reveal_strlit("3");
        reveal_strlit("4");
        reveal_strlit("5");
        reveal_strlit("6");
        reveal_strlit("7");
        reveal_strlit("8");
        reveal_strlit("9");
    }
    let s: &'static str = if d == 0 {
        "0"
    } else if d == 1 {
        "1"
    } else if d == 2 {
        "2"
    } else if d == 3 {
        "3"
    } else if d == 4 {
        "4"
    } else if d == 5 {
        "5"
    } else if d == 6 {
        "6"
    } else if d == 7 {
        "7"
    } else if d == 8 {
        "8"
    } else {
        "9"
    };
    assert(s@ =~= seq![digit(d as nat)]);
    s
}

/// Appends the decimal numeral of `n` to `text`.
pub fn push_decimal(text: &mut String, n: u128)
    ensures
        final(text)@ == old(text)@ + decimal(n as nat),
    decreases n,
{
    if n >= 10 {
        push_decimal(text, n / 10);
    }
    text.append(digit_str(n % 10));
    proof {
        if n >= 10 {
            assert(old(text)@ + decimal((n / 10) as nat) + seq![digit((n % 10) as nat)] =~= old(
                text,
            )@ + decimal((n / 10) as nat).push(digit((n % 10) as nat)));
        }
    }
}

/// Taking the whole minutes out of an elapsed time, and then the whole
/// seconds out of what is left, leaves the remainders that the fields are
/// made from.
proof fn lemma_taking_out(ms: nat)
    ensures
        ms - minutes_of(ms) * 60_000 == ms % 60_000,
        ms % 60_000 - seconds_of(ms) * 1_000 == ms % 1_000,
{
    let rest = ms % 60_000;
    assert(ms == 60_000 * (ms / 60_000) + rest);
    assert(rest == 1_000 * (rest / 1_000) + rest % 1_000);
    assert(ms == 1_000 * (60 * (ms / 60_000) + rest / 1_000) + rest % 1_000);
    assert(rest % 1_000 == ms % 1_000);
}

/// Renders an elapsed time in whole milliseconds as
/// `minutes:seconds:split_seconds`.
pub fn format_elapsed(elapsed_ms: u128) -> (text: String)
    ensures
        text@ == elapsed_text(elapsed_ms as nat),
{
    proof {
        lemma_taking_out(elapsed_ms as nat);
    }
    let minutes: u128 = elapsed_ms / 60_000;
    let mut rest: u128 = elapsed_ms - minutes * 60_000;
    let seconds: u128 = rest / 1_000;
    rest = rest - seconds * 1_000;
    let split_seconds: u128 = rest / 10;
    assert(minutes == minutes_of(elapsed_ms as nat));
    assert(seconds == seconds_of(elapsed_ms as nat));
    assert(split_seconds == split_seconds_of(elapsed_ms as nat));

    let mut text = String::new();
    push_decimal(&mut text, minutes);
    text.append(":");
    push_decimal(&mut text, seconds);
    text.append(":");
    push_decimal(&mut text, split_seconds);
    proof {
        reveal_strlit(":");
        assert(":"@ =~= seq![':']);
        assert(text@ =~= decimal(minutes as nat) + seq![':'] + decimal(seconds as nat) + seq![
            ':',
        ] + decimal(split_seconds as nat));
    }
    text
}

} // verus!
