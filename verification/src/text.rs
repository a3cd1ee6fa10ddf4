//! Plain text: decimal numbers and lists separated by spaces.
use vstd::prelude::*;

verus! {

/// The decimal digit for `d`, for `d` below ten.
pub open spec fn digit(d: nat) -> char {
    seq!['0', '1', '2', '3', '4', '5', '6', '7', '8', '9'][d as int]
}

/// The decimal digits of `n`, most significant first and without leading zeros.
pub open spec fn digits(n: nat) -> Seq<char>
    decreases n,
{
    if n < 10 {
        seq![digit(n)]
    } else {
        digits(n / 10).push(digit(n % 10))
    }
}

/// The number `n` in decimal notation, with a leading `-` when it is negative.
pub open spec fn decimal(n: int) -> Seq<char> {
    if n < 0 {
        seq!['-'] + digits((-n) as nat)
    } else {
        digits(n as nat)
    }
}

/// `parts` one after the other, with a single space between neighbours.
pub open spec fn spaced(parts: Seq<Seq<char>>) -> Seq<char>
    decreases parts.len(),
{
    if parts.len() == 0 {
        seq![]
    } else if parts.len() == 1 {
        parts[0]
    } else {
        spaced(parts.drop_last()).push(' ') + parts.last()
    }
}

/// The texts of a list of strings.
pub open spec fn texts(strings: Seq<String>) -> Seq<Seq<char>> {
    strings.map_values(|s: String| s@)
}

/// The text of a string that may be absent.
pub open spec fn optional_text(string: Option<String>) -> Option<Seq<char>> {
    match string {
        Some(s) => Some(s@),
        None => None,
    }
}

/// The one-character text of the digit `d`.
fn digit_text(d: u64) -> (r: &'static str)
    requires
        d < 10,
    ensures
        r@ == seq![digit(d as nat)],
{
    proof {
        reveal_strlit("0");
        reveal_strlit("1");
        reveal_strlit("2");
        reveal_strlit("3");
        reveal_strlit("4");
        reveal_strlit("5");
        reveal_strlit("6");
        reveal_strlit("7");
        reveal_strlit("8");
        reveal_strlit("9");
    }
    match d {
        0 => "0",
        1 => "1",
        2 => "2",
        3 => "3",
        4 => "4",
        5 => "5",
        6 => "6",
        7 => "7",
        8 => "8",
        _ => "9",
    }
}

/// Appends the decimal digits of `n` to `out`.
fn push_digits(out: &mut String, n: u64)
    ensures
        final(out)@ == old(out)@ + digits(n as nat),
    decreases n,
{
    if n >= 10 {
        push_digits(out, n / 10);
    }
    out.append(digit_text(n % 10));
}

/// Renders `n` in decimal notation.
pub fn decimal_text(n: i64) -> (r: String)
    ensures
        r@ == decimal(n as int),
{
    let mut out = String::new();
    if n < 0 {
        proof {
            reveal_strlit("-");
        }
        out.append("-");
        let magnitude: u64 = (-(n + 1)) as u64 + 1;
        push_digits(&mut out, magnitude);
    } else {
        push_digits(&mut out, n as u64);
    }
    out
}

/// Joins `parts` with single spaces.
pub fn spaced_text(parts: &Vec<String>) -> (r: String)
    ensures
        r@ == spaced(texts(parts@)),
{
    proof {
        reveal_strlit(" ");
    }
    let mut out = String::new();
    for i in 0..parts.len()
        invariant
            out@ == spaced(texts(parts@).take(i as int)),
            " "@ == seq![' '],
    {
        if i > 0 {
            out.append(" ");
        }
        out.append(parts[i].as_str());
        assert(texts(parts@).take(i + 1).drop_last() =~= texts(parts@).take(i as int));
    }
    assert(texts(parts@).take(parts@.len() as int) =~= texts(parts@));
    out
}

/// No digit is a minus sign.
proof fn lemma_digits_unsigned(n: nat)
    ensures
        digits(n).len() > 0,
        forall|i: int| 0 <= i < digits(n).len() ==> digits(n)[i] != '-',
    decreases n,
{
    if n >= 10 {
        lemma_digits_unsigned(n / 10);
    }
}

proof fn lemma_digits_injective(a: nat, b: nat)
    requires
        digits(a) == digits(b),
    ensures
        a == b,
    decreases a,
{
    lemma_digits_unsigned(a / 10);
    lemma_digits_unsigned(b / 10);
    assert(digits(a).last() == digit(a % 10));
    assert(digits(b).last() == digit(b % 10));
    if a >= 10 && b >= 10 {
        assert(digits(a).drop_last() =~= digits(a / 10));
        assert(digits(b).drop_last() =~= digits(b / 10));
        lemma_digits_injective(a / 10, b / 10);
    }
}

/// Different numbers have different decimal notations.
pub proof fn decimal_injective(a: int, b: int)
    requires
        decimal(a) == decimal(b),
    ensures
        a == b,
{
    if a < 0 && b < 0 {
        assert(decimal(a).skip(1) =~= digits((-a) as nat));
        assert(decimal(b).skip(1) =~= digits((-b) as nat));
        lemma_digits_injective((-a) as nat, (-b) as nat);
    } else if a >= 0 && b >= 0 {
        lemma_digits_injective(a as nat, b as nat);
    } else {
        let unsigned = if a < 0 { b as nat } else { a as nat };
        lemma_digits_unsigned(unsigned);
        assert(decimal(a)[0] == decimal(b)[0]);
        assert(digits(unsigned)[0] != '-');
    }
}

/// The number that decimal digits stand for, read from the left.
pub open spec fn parsed_digits(text: Seq<char>) -> int
    decreases text.len(),
{
    if text.len() == 0 {
        0
    } else {
        10 * parsed_digits(text.drop_last()) + (text.last() as int - '0' as int)
    }
}

/// The number that decimal digits with an optional minus sign stand for.
pub open spec fn parsed(text: Seq<char>) -> int {
    if text.len() > 0 && text[0] == '-' {
        -parsed_digits(text.skip(1))
    } else {
        parsed_digits(text)
    }
}

proof fn lemma_digits_form(n: nat)
    ensures
        parsed_digits(digits(n)) == n,
        digits(n).len() > 0,
        digits(n).len() == 1 <==> n < 10,
        forall|i: int|
            0 <= i < digits(n).len() ==> '0' as int <= #[trigger] digits(n)[i] as int <= '9' as int,
        n > 0 ==> digits(n)[0] != '0',
    decreases n,
{
    if n < 10 {
        assert(digits(n).drop_last() =~= seq![]);
        assert(parsed_digits(seq![]) == 0);
        assert(digits(n).last() as int - '0' as int == n);
    } else {
        lemma_digits_form(n / 10);
        assert(digits(n).drop_last() =~= digits(n / 10));
        assert(digits(n).last() as int - '0' as int == n % 10);
    }
}

/// A number is read back from its decimal notation.
pub proof fn decimal_is_read_back(n: int)
    ensures
        parsed(decimal(n)) == n,
{
    if n < 0 {
        lemma_digits_form((-n) as nat);
        assert(decimal(n).skip(1) =~= digits((-n) as nat));
    } else {
        lemma_digits_form(n as nat);
        assert(digits(n as nat)[0] as int >= '0' as int);
    }
}

/// A decimal notation has a minus sign for the negative numbers alone, digits
/// after that, and a leading zero only for zero itself.
pub proof fn decimal_is_plain(n: int)
    ensures
        n >= 0 ==> decimal(n).len() >= 1,
        n < 0 ==> decimal(n).len() >= 2 && decimal(n)[0] == '-' && decimal(n)[1] != '0',
        n > 0 ==> decimal(n)[0] != '0',
        n == 0 ==> decimal(n) == seq!['0'],
        forall|i: int|
            (if n < 0 {
                1
            } else {
                0int
            }) <= i < decimal(n).len() ==> '0' as int <= #[trigger] decimal(n)[i] as int
                <= '9' as int,
{
    if n < 0 {
        lemma_digits_form((-n) as nat);
        assert(decimal(n)[1] == digits((-n) as nat)[0]);
        assert forall|i: int| 1 <= i < decimal(n).len() implies '0' as int <= #[trigger] decimal(
            n,
        )[i] as int <= '9' as int by {
            assert(decimal(n)[i] == digits((-n) as nat)[i - 1]);
        }
    } else {
        lemma_digits_form(n as nat);
    }
}

/// No texts give the empty text, and one text is left as it is.
pub proof fn spaced_keeps_single_texts(part: Seq<char>)
    ensures
        spaced(seq![]).len() == 0,
        spaced(seq![part]) == part,
{
}

/// Where two lists of texts meet, a single space stands between them.
pub proof fn spaced_lists_meet_at_a_space(a: Seq<Seq<char>>, b: Seq<Seq<char>>)
    requires
        a.len() > 0,
        b.len() > 0,
    ensures
        spaced(a + b) == spaced(a) + seq![' '] + spaced(b),
    decreases b.len(),
{
    assert((a + b).drop_last() =~= a + b.drop_last());
    assert((a + b).last() == b.last());
    if b.len() == 1 {
        assert(a + b.drop_last() =~= a);
        assert(spaced(a + b) =~= spaced(a) + seq![' '] + spaced(b));
    } else {
        spaced_lists_meet_at_a_space(a, b.drop_last());
        assert(spaced(a + b) =~= spaced(a) + seq![' '] + spaced(b));
    }
}

/// The texts of strings are those of the strings, one for one.
pub proof fn texts_are_those_of_the_strings(strings: Seq<String>, string: Option<String>)
    ensures
        texts(strings).len() == strings.len(),
        forall|i: int| 0 <= i < strings.len() ==> #[trigger] texts(strings)[i] == strings[i]@,
        string is None ==> optional_text(string) is None,
        string matches Some(s) ==> optional_text(string) == Some(s@),
{
}

} // verus!
