//! Decimal text of integers, for the descriptions of values.

use vstd::prelude::*;

verus! {

/// The decimal digit for `d`.
pub open spec fn digit_char(d: int) -> char {
    (48 + d) as char
}

/// The decimal text of `n`, without leading zeros.
pub open spec fn decimal(n: nat) -> Seq<char>
    decreases n,
{
    if n < 10 {
        seq![digit_char(n as int)]
    } else {
        decimal(n / 10) + seq![digit_char((n % 10) as int)]
    }
}

/// The text of the digit `d`.
fn digit_str(d: u64) -> (s: &'static str)
    requires
        d < 10,
    ensures
        s@ == seq![digit_char(d as int)],
{
    match d {
        0 => {
            proof {
                reveal_strlit("0");
            }
            "0"
        },
        1 => {
            proof {
                reveal_strlit("1");
            }
            "1"
        },
        2 => {
            proof {
                reveal_strlit("2");
            }
            "2"
        },
        3 => {
            proof {
                reveal_strlit("3");
            }
            "3"
        },
        4 => {
            proof {
                reveal_strlit("4");
            }
            "4"
        },
        5 => {
            proof {
                reveal_strlit("5");
            }
            "5"
        },
        6 => {
            proof {
                reveal_strlit("6");
            }
            "6"
        },
        7 => {
            proof {
                reveal_strlit("7");
            }
            "7"
        },
        8 => {
            proof {
                reveal_strlit("8");
            }
            "8"
        },
        _ => {
            proof {
                reveal_strlit("9");
            }
            "9"
        },
    }
}

/// Appends the decimal text of `n` to `out`.
pub fn push_decimal(out: &mut String, n: u64)
    ensures
        final(out)@ == old(out)@ + decimal(n as nat),
    decreases n,
{
    if n < 10 {
        out.append(digit_str(n));
    } else {
        push_decimal(out, n / 10);
        out.append(digit_str(n % 10));
        assert(out@ =~= old(out)@ + decimal(n as nat));
    }
}

/// Returns the decimal text of `n`.
pub fn decimal_string(n: u64) -> (s: String)
    ensures
        s@ == decimal(n as nat),
{
    let mut s = String::new();
    push_decimal(&mut s, n);
    assert(s@ =~= decimal(n as nat));
    s
}

/// The decimal texts of the bytes `s`, separated by `", "`.
pub open spec fn byte_list_items(s: Seq<u8>) -> Seq<char>
    decreases s.len(),
{
    if s.len() == 0 {
        seq![]
    } else if s.len() == 1 {
        decimal(s[0] as nat)
    } else {
        byte_list_items(s.drop_last()) + ", "@ + decimal(s.last() as nat)
    }
}

/// The text of a list of bytes: `[1, 2, 3]`.
pub open spec fn byte_list(s: Seq<u8>) -> Seq<char> {
    "["@ + byte_list_items(s) + "]"@
}

/// Appends the text of the list of bytes `s` to `out`.
pub fn push_byte_list(out: &mut String, s: &[u8])
    ensures
        final(out)@ == old(out)@ + byte_list(s@),
{
    out.append("[");
    let ghost start = out@;
    let mut i: usize = 0;
    while i < s.len()
        invariant
            i <= s@.len(),
            out@ == start + byte_list_items(s@.take(i as int)),
        decreases s@.len() - i,
    {
        if i > 0 {
            out.append(", ");
        }
        push_decimal(out, s[i] as u64);
        proof {
            let t = s@.take(i + 1);
            assert(t.drop_last() =~= s@.take(i as int));
            if i == 0 {
                assert(s@.take(0) =~= Seq::<u8>::empty());
            }
        }
        i = i + 1;
        assert(out@ =~= start + byte_list_items(s@.take(i as int)));
    }
    assert(s@.take(s@.len() as int) =~= s@);
    out.append("]");
    assert(out@ =~= old(out)@ + byte_list(s@));
}

} // verus!
