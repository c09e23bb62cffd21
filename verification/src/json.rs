//! Text writers for the trace format: decimal and hex numbers, booleans,
//! and literal pieces, each stated as the text it leaves after `text`.

use vstd::prelude::*;
use vstd::string::StringExecFns;

verus! {

/// The decimal digit `d`.
pub open spec fn digit(d: nat) -> Seq<char> {
    if d == 0 {
        "0"@
    } else if d == 1 {
        "1"@
    } else if d == 2 {
        "2"@
    } else if d == 3 {
        "3"@
    } else if d == 4 {
        "4"@
    } else if d == 5 {
        "5"@
    } else if d == 6 {
        "6"@
    } else if d == 7 {
        "7"@
    } else if d == 8 {
        "8"@
    } else {
        "9"@
    }
}

/// `text` followed by `n` in decimal, without leading zeros.
pub open spec fn write_decimal(text: Seq<char>, n: nat) -> Seq<char>
    decreases n,
{
    if n < 10 {
        text + digit(n)
    } else {
        write_decimal(text, n / 10) + digit(n % 10)
    }
}

/// The lowercase hexadecimal digit `d`.
pub open spec fn hex_digit(d: nat) -> Seq<char> {
    if d < 10 {
        digit(d)
    } else if d == 10 {
        "a"@
    } else if d == 11 {
        "b"@
    } else if d == 12 {
        "c"@
    } else if d == 13 {
        "d"@
    } else if d == 14 {
        "e"@
    } else {
        "f"@
    }
}

/// `text` followed by `b` as two lowercase hex digits.
pub open spec fn write_hex_byte(text: Seq<char>, b: u8) -> Seq<char> {
    (text + hex_digit((b / 16) as nat)) + hex_digit((b % 16) as nat)
}

/// `text` followed by every byte of `data` as two lowercase hex digits.
pub open spec fn write_hex(text: Seq<char>, data: Seq<u8>) -> Seq<char>
    decreases data.len(),
{
    if data.len() == 0 {
        text
    } else {
        write_hex_byte(write_hex(text, data.drop_last()), data.last())
    }
}

/// `text` followed by `true` or `false`.
pub open spec fn write_bool(text: Seq<char>, b: bool) -> Seq<char> {
    text + if b {
        "true"@
    } else {
        "false"@
    }
}

/// Append a literal piece.
pub fn push(out: &mut String, piece: &str)
    ensures
        final(out)@ == old(out)@ + piece@,
{
    out.append(piece);
}

fn push_digit(out: &mut String, d: u64)
    requires
        d < 10,
    ensures
        final(out)@ == old(out)@ + digit(d as nat),
{
    let piece = if d == 0 {
        "0"
    } else if d == 1 {
        "1"
    } else if d == 2 {
        "2"
    } else if d == 3 {
        "3"
    } else if d == 4 {
        "4"
    } else if d == 5 {
        "5"
    } else if d == 6 {
        "6"
    } else if d == 7 {
        "7"
    } else if d == 8 {
        "8"
    } else {
        "9"
    };
    out.append(piece);
}

/// Append `n` in decimal.
pub fn push_decimal(out: &mut String, n: u64)
    ensures
        final(out)@ == write_decimal(old(out)@, n as nat),
    decreases n,
{
    if n >= 10 {
        push_decimal(out, n / 10);
    }
    push_digit(out, n % 10);
}

fn push_hex_digit(out: &mut String, d: u8)
    requires
        d < 16,
    ensures
        final(out)@ == old(out)@ + hex_digit(d as nat),
{
    if d < 10 {
        push_digit(out, d as u64);
    } else {
        let piece = if d == 10 {
            "a"
        } else if d == 11 {
            "b"
        } else if d == 12 {
            "c"
        } else if d == 13 {
            "d"
        } else if d == 14 {
            "e"
        } else {
            "f"
        };
        out.append(piece);
    }
}

/// Append `data` as lowercase hex, two digits per byte.
pub fn push_hex(out: &mut String, data: &[u8])
    ensures
        final(out)@ == write_hex(old(out)@, data@),
{
    let ghost start = out@;
    let mut i: usize = 0;
    while i < data.len()
        invariant
            i <= data.len(),
            out@ == write_hex(start, data@.take(i as int)),
        decreases data.len() - i,
    {
        let b = data[i];
        push_hex_digit(out, b / 16);
        push_hex_digit(out, b % 16);
        proof {
            let next = data@.take(i as int + 1);
            assert(next.drop_last() =~= data@.take(i as int));
            assert(next.last() == b);
        }
        i = i + 1;
    }
    assert(data@.take(data.len() as int) =~= data@);
}

/// Append `true` or `false`.
pub fn push_bool(out: &mut String, b: bool)
    ensures
        final(out)@ == write_bool(old(out)@, b),
{
    if b {
        out.append("true");
    } else {
        out.append("false");
    }
}

} // verus!
