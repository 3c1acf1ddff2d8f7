use vstd::prelude::*;

verus! {

/// The character of a decimal digit `d` (`0 <= d < 10`).
pub open spec fn digit_char(d: nat) -> char {
    if d == 0 {
        '0'
    } else if d == 1 {
        '1'
    } else if d == 2 {
        '2'
    } else if d == 3 {
        '3'
    } else if d == 4 {
        '4'
    } else if d == 5 {
        '5'
    } else if d == 6 {
        '6'
    } else if d == 7 {
        '7'
    } else if d == 8 {
        '8'
    } else {
        '9'
    }
}

/// Decimal notation of a natural number, most significant digit first,
/// without leading zeros.
pub open spec fn decimal_text(n: nat) -> Seq<char>
    decreases n,
{
    if n < 10 {
        seq![digit_char(n)]
    } else {
        decimal_text(n / 10).push(digit_char(n % 10))
    }
}

/// The value of a decimal digit character, and -1 for any other character.
pub open spec fn digit_value(c: char) -> int {
    if c == '0' {
        0
    } else if c == '1' {
        1
    } else if c == '2' {
        2
    } else if c == '3' {
        3
    } else if c == '4' {
        4
    } else if c == '5' {
        5
    } else if c == '6' {
        6
    } else if c == '7' {
        7
    } else if c == '8' {
        8
    } else if c == '9' {
        9
    } else {
        -1
    }
}

/// The number that a sequence of decimal digits denotes, most significant first.
pub open spec fn numeral_value(t: Seq<char>) -> int
    decreases t.len(),
{
    if t.len() == 0 {
        0
    } else {
        numeral_value(t.drop_last()) * 10 + digit_value(t.last())
    }
}

/// A decimal numeral: at least one digit, all digits, and no leading zero
/// unless the numeral is "0".
pub open spec fn is_numeral(t: Seq<char>) -> bool {
    &&& t.len() > 0
    &&& forall|i: int| 0 <= i < t.len() ==> 0 <= #[trigger] digit_value(t[i]) <= 9
    &&& t.len() > 1 ==> t[0] != '0'
}

/// The digit character of `d` reads back as `d`, and only 0 gives '0'.
proof fn lemma_digit_reads_back(d: nat)
    requires
        d < 10,
    ensures
        digit_value(digit_char(d)) == d,
        digit_char(d) == '0' <==> d == 0,
{
}

/// The decimal text of `n` is a numeral that reads back as `n`.
pub proof fn lemma_decimal_text_reads_back(n: nat)
    ensures
        is_numeral(decimal_text(n)),
        numeral_value(decimal_text(n)) == n,
        decimal_text(n)[0] == '0' <==> n == 0,
    decreases n,
{
    let t = decimal_text(n);
    if n < 10 {
        lemma_digit_reads_back(n);
        assert(t.drop_last() =~= Seq::<char>::empty());
        assert(numeral_value(t) == numeral_value(t.drop_last()) * 10 + digit_value(t.last()));
        assert(t[0] == digit_char(n));
    } else {
        lemma_decimal_text_reads_back(n / 10);
        lemma_digit_reads_back(n % 10);
        let u = decimal_text(n / 10);
        assert(t =~= u.push(digit_char(n % 10)));
        assert(t.drop_last() =~= u);
        assert(numeral_value(t) == numeral_value(u) * 10 + digit_value(digit_char(n % 10)));
        assert((n / 10) * 10 + n % 10 == n);
        assert forall|i: int| 0 <= i < t.len() implies 0 <= #[trigger] digit_value(t[i]) <= 9 by {
            if i < u.len() {
                assert(t[i] == u[i]);
                assert(0 <= digit_value(u[i]) <= 9);
            }
        }
        assert(t[0] == u[0]);
    }
}

fn digit_str(d: u64) -> (s: &'static str)
    requires
        d < 10,
    ensures
        s@ == seq![digit_char(d as nat)],
{
    proof {
        reveal_strlit("0");
        reveal_strlit("1");
        reveal_strlit("2");
        reveal_strlit("3");
        reveal_strlit("4");
        reveal_strlit("5");
        reveal_strlit("6");
        reveal_strlit("7");
        reveal_strlit("8");
        reveal_strlit("9");
    }
    match d {
        0 => "0",
        1 => "1",
        2 => "2",
        3 => "3",
        4 => "4",
        5 => "5",
        6 => "6",
        7 => "7",
        8 => "8",
        _ => "9",
    }
}

/// Renders `n` in decimal notation, as the `Display` of Rust's integers does.
pub fn decimal(n: u64) -> (s: String)
    ensures
        s@ == decimal_text(n as nat),
    decreases n,
{
    if n < 10 {
        String::from_str(digit_str(n))
    } else {
        let mut s = decimal(n / 10);
        s.append(digit_str(n % 10));
        s
    }
}

} // verus!
