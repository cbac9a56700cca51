use vstd::prelude::*;
use crate::utc::Utc;

verus! {

/// The character of a decimal digit.
pub open spec fn digit_char(d: int) -> char {
    if d == 0 {
        '0'
    } else if d == 1 {
        '1'
    } else if d == 2 {
        '2'
    } else if d == 3 {
        '3'
    } else if d == 4 {
        '4'
    } else if d == 5 {
        '5'
    } else if d == 6 {
        '6'
    } else if d == 7 {
        '7'
    } else if d == 8 {
        '8'
    } else {
        '9'
    }
}

/// Decimal digits of `n`, most significant first, without leading zeros.
pub open spec fn decimal(n: nat) -> Seq<char>
    decreases n,
{
    if n < 10 {
        seq![digit_char(n as int)]
    } else {
        decimal(n / 10) + seq![digit_char(n as int % 10)]
    }
}

/// `k` zero characters.
pub open spec fn zeros(k: nat) -> Seq<char>
    decreases k,
{
    if k == 0 {
        Seq::empty()
    } else {
        zeros((k - 1) as nat) + seq!['0']
    }
}

/// Decimal digits of `n`, with leading zeros up to `width` characters.
pub open spec fn padded(n: nat, width: nat) -> Seq<char> {
    if decimal(n).len() < width {
        zeros((width - decimal(n).len()) as nat) + decimal(n)
    } else {
        decimal(n)
    }
}

/// A year with at least four characters: zero-padded, after the sign when
/// it is negative.
pub open spec fn year_text(year: int) -> Seq<char> {
    if year < 0 {
        seq!['-'] + padded((-year) as nat, 3)
    } else {
        padded(year as nat, 4)
    }
}

/// `YYYY-MM-DDTHH:MM:SS+00:00`.
pub open spec fn utc_text(u: Utc) -> Seq<char> {
    year_text(u.year as int) + seq!['-'] + padded(u.month as nat, 2) + seq!['-'] + padded(
        u.day as nat,
        2,
    ) + seq!['T'] + padded(u.hour as nat, 2) + seq![':'] + padded(u.minute as nat, 2) + seq![':']
        + padded(u.second as nat, 2) + seq!['+', '0', '0', ':', '0', '0']
}

/// The literal text of one decimal digit.
fn digit_str(d: u64) -> (r: &'static str)
    requires
        d < 10,
    ensures
        r@ == seq![digit_char(d as int)],
{
    proof {
        reveal_strlit("0");
        reveal_strlit("1");
        reveal_strlit("2");
        reveal_strlit("3");
        reveal_strlit("4");
        reveal_strlit("5");
        reveal_strlit("6");
        reveal_strlit("7");
        reveal_strlit("8");
        reveal_strlit("9");
    }
    if d == 0 {
        "0"
    } else if d == 1 {
        "1"
    } else if d == 2 {
        "2"
    } else if d == 3 {
        "3"
    } else if d == 4 {
        "4"
    } else if d == 5 {
        "5"
    } else if d == 6 {
        "6"
    } else if d == 7 {
        "7"
    } else if d == 8 {
        "8"
    } else {
        "9"
    }
}

/// Number of decimal digits of `n`.
fn digit_count(n: u64) -> (r: u64)
    ensures
        r == decimal(n as nat).len(),
        1 <= r <= n as int + 1,
    decreases n,
{
    if n < 10 {
        1
    } else {
        1 + digit_count(n / 10)
    }
}

/// Appends the decimal digits of `n`.
fn push_decimal(s: &mut String, n: u64)
    ensures
        final(s)@ == old(s)@ + decimal(n as nat),
    decreases n,
{
    if n >= 10 {
        push_decimal(s, n / 10);
    }
    s.append(digit_str(n % 10));
}

/// Appends the decimal digits of `n`, zero-padded to `width` characters.
fn push_padded(s: &mut String, n: u64, width: u64)
    ensures
        final(s)@ == old(s)@ + padded(n as nat, width as nat),
{
    let count = digit_count(n);
    let mut i: u64 = count;
    let ghost start = s@;
    proof {
        reveal_strlit("0");
    }
    while i < width
        invariant
            count == decimal(n as nat).len(),
            count <= i,
            i <= width || count >= width,
            i == count || count < width,
            s@ == start + zeros((i - count) as nat),
        decreases width - i,
    {
        proof {
            reveal_strlit("0");
            assert(zeros((i + 1 - count) as nat) == zeros((i - count) as nat) + seq!['0']);
        }
        s.append("0");
        i = i + 1;
    }
    push_decimal(s, n);
    assert(s@ =~= start + padded(n as nat, width as nat));
}

impl Utc {
    /// Renders the value as `YYYY-MM-DDTHH:MM:SS+00:00`: the year on at least
    /// four characters, the other fields on two; nanoseconds are not shown.
    pub fn to_string(&self) -> (r: String)
        ensures
            r@ == utc_text(*self),
    {
        let mut s = String::new();
        if self.year < 0 {
            s.append("-");
            push_padded(&mut s, (-(self.year as i64)) as u64, 3);
        } else {
            push_padded(&mut s, self.year as u64, 4);
        }
        s.append("-");
        push_padded(&mut s, self.month as u64, 2);
        s.append("-");
        push_padded(&mut s, self.day as u64, 2);
        s.append("T");
        push_padded(&mut s, self.hour as u64, 2);
        s.append(":");
        push_padded(&mut s, self.minute as u64, 2);
        s.append(":");
        push_padded(&mut s, self.second as u64, 2);
        s.append("+00:00");
        proof {
            reveal_strlit("-");
            reveal_strlit("T");
            reveal_strlit(":");
            reveal_strlit("+00:00");
        }
        assert(s@ =~= utc_text(*self));
        s
    }
}

} // verus!
