//! Laying the codes out as text: a caption above each code, centred over
//! it, and blank lines between one code and the next.

use crate::encoder::SymbolVersion;
use vstd::prelude::*;
use vstd::string::StringExecFns;
use vstd::utf8::encode_utf8;

verus! {

/// The character for a digit.
pub open spec fn digit(value: nat) -> char {
    if value == 0 {
        '0'
    } else if value == 1 {
        '1'
    } else if value == 2 {
        '2'
    } else if value == 3 {
        '3'
    } else if value == 4 {
        '4'
    } else if value == 5 {
        '5'
    } else if value == 6 {
        '6'
    } else if value == 7 {
        '7'
    } else if value == 8 {
        '8'
    } else {
        '9'
    }
}

/// A number in decimal, without leading zeros.
pub open spec fn decimal(value: nat) -> Seq<char>
    decreases value,
{
    if value < 10 {
        seq![digit(value)]
    } else {
        decimal(value / 10).push(digit(value % 10))
    }
}

/// A number in decimal, with a minus sign where it is negative.
pub open spec fn signed_decimal(value: int) -> Seq<char> {
    if value < 0 {
        seq!['-'] + decimal((-value) as nat)
    } else {
        decimal(value as nat)
    }
}

/// `count` times the same character.
pub open spec fn repeated(character: char, count: nat) -> Seq<char> {
    Seq::new(count, |i: int| character)
}

/// The number that a caption shows for a version: Micro QR codes count
/// below zero.
pub open spec fn version_number(version: SymbolVersion) -> int {
    match version {
        SymbolVersion::Normal(number) => number as int,
        SymbolVersion::Micro(number) => -(number as int),
    }
}

/// The number of modules on each side of a symbol, without the border: 21
/// for version 1 and four more for each version after it; 11 for the first
/// Micro QR code and two more for each after it.
pub open spec fn modules_per_side(version: SymbolVersion) -> nat {
    let side = match version {
        SymbolVersion::Normal(number) => number * 4 + 17,
        SymbolVersion::Micro(number) => number * 2 + 9,
    };
    if side < 0 {
        0
    } else {
        side as nat
    }
}

/// The caption of code `index` out of `count`: the label, the position
/// counted from one, the number of codes, and the version.
pub open spec fn caption(label: Seq<char>, index: nat, count: nat, version: SymbolVersion) -> Seq<
    char,
> {
    label + seq![' ', '('] + decimal(index + 1) + seq!['/'] + decimal(count) + seq![')', ' ', 'v']
        + signed_decimal(version_number(version)) + seq!['\n']
}

/// The number of spaces before a caption: half of what the code with its
/// border is wider than the caption has bytes.
pub open spec fn indent(side: nat, border: nat, line: Seq<char>) -> nat {
    let room = side + border * 2;
    let used = encode_utf8(line).len();
    if room > used {
        ((room - used) / 2) as nat
    } else {
        0
    }
}

/// The caption of a code, moved to the middle of the code.
pub open spec fn heading(
    label: Seq<char>,
    index: nat,
    count: nat,
    version: SymbolVersion,
    border: u8,
) -> Seq<char> {
    let line = caption(label, index, count, version);
    repeated(' ', indent(modules_per_side(version), border as nat, line)) + line
}

/// The text of one digit.
fn digit_text(value: usize) -> (text: &'static str)
    requires
        value < 10,
    ensures
        text@ == seq![digit(value as nat)],
{
    proof {
        reveal_strlit("0");
        reveal_strlit("1");
        reveal_strlit("2");
        reveal_strlit("3");
        reveal_strlit("4");
        reveal_strlit("5");
        reveal_strlit("6");
        reveal_strlit("7");
        reveal_strlit("8");
        reveal_strlit("9");
    }
    let text: &'static str = if value == 0 {
        "0"
    } else if value == 1 {
        "1"
    } else if value == 2 {
        "2"
    } else if value == 3 {
        "3"
    } else if value == 4 {
        "4"
    } else if value == 5 {
        "5"
    } else if value == 6 {
        "6"
    } else if value == 7 {
        "7"
    } else if value == 8 {
        "8"
    } else {
        "9"
    };
    text
}

/// Writes `value` in decimal at the end of `out`.
pub fn push_decimal(out: &mut String, value: usize)
    ensures
        final(out)@ == old(out)@ + decimal(value as nat),
    decreases value,
{
    if value >= 10 {
        push_decimal(out, value / 10);
    }
    out.append(digit_text(value % 10));
}

/// Writes `value` in decimal at the end of `out`, with its sign.
pub fn push_signed_decimal(out: &mut String, value: i32)
    ensures
        final(out)@ == old(out)@ + signed_decimal(value as int),
{
    if value < 0 {
        proof {
            reveal_strlit("-");
        }
        out.append("-");
        let magnitude: i64 = -(value as i64);
        push_decimal(out, magnitude as usize);
    } else {
        push_decimal(out, value as usize);
    }
}

/// Writes `count` spaces or line ends at the end of `out`.
pub fn push_repeated(out: &mut String, piece: &str, count: usize)
    requires
        piece@.len() == 1,
    ensures
        final(out)@ == old(out)@ + repeated(piece@[0], count as nat),
{
    let mut written: usize = 0;
    while written < count
        invariant
            written <= count,
            piece@.len() == 1,
            out@ == old(out)@ + repeated(piece@[0], written as nat),
        decreases count - written,
    {
        out.append(piece);
        written = written + 1;
    }
}

/// Computes the number of modules on each side of a symbol.
pub fn side_of(version: SymbolVersion) -> (side: usize)
    ensures
        side == modules_per_side(version),
{
    let side: i32 = match version {
        SymbolVersion::Normal(number) => number as i32 * 4 + 17,
        SymbolVersion::Micro(number) => number as i32 * 2 + 9,
    };
    if side < 0 {
        0
    } else {
        side as usize
    }
}

/// Writes the caption of code `index` out of `count`.
pub fn make_caption(label: &str, index: usize, count: usize, version: SymbolVersion) -> (line:
    String)
    requires
        index < count,
    ensures
        line@ == caption(label@, index as nat, count as nat, version),
{
    proof {
        reveal_strlit(" (");
        reveal_strlit("/");
        reveal_strlit(") v");
        reveal_strlit("\n");
    }
    let number: i32 = match version {
        SymbolVersion::Normal(number) => number as i32,
        SymbolVersion::Micro(number) => -(number as i32),
    };
    let mut line = String::new();
    line.append(label);
    line.append(" (");
    push_decimal(&mut line, index + 1);
    line.append("/");
    push_decimal(&mut line, count);
    line.append(") v");
    push_signed_decimal(&mut line, number);
    line.append("\n");
    line
}

/// Writes the caption of code `index` out of `count` and moves it to the
/// middle of the code.
pub fn make_heading(
    label: &str,
    index: usize,
    count: usize,
    version: SymbolVersion,
    border: u8,
) -> (line: String)
    requires
        index < count,
    ensures
        line@ == heading(label@, index as nat, count as nat, version, border),
{
    let line = make_caption(label, index, count, version);
    let room: usize = side_of(version) + border as usize * 2;
    let used: usize = line.as_str().as_bytes().len();
    let spaces: usize = if room > used {
        (room - used) / 2
    } else {
        0
    };
    proof {
        reveal_strlit(" ");
    }
    let mut out = String::new();
    push_repeated(&mut out, " ", spaces);
    out.append(line.as_str());
    out
}

} // verus!
