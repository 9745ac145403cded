use crate::size::Size;
use vstd::prelude::*;
use vstd::string::StringExecFns;

verus! {

/// The text of one decimal digit; `d` is below ten.
pub open spec fn digit_text(d: nat) -> Seq<char> {
    if d == 0 {
        "0"@
    } else if d == 1 {
        "1"@
    } else if d == 2 {
        "2"@
    } else if d == 3 {
        "3"@
    } else if d == 4 {
        "4"@
    } else if d == 5 {
        "5"@
    } else if d == 6 {
        "6"@
    } else if d == 7 {
        "7"@
    } else if d == 8 {
        "8"@
    } else {
        "9"@
    }
}

/// The decimal numeral of `n`, without leading zeros.
pub open spec fn decimal_text(n: nat) -> Seq<char>
    decreases n,
{
    if n < 10 {
        digit_text(n)
    } else {
        decimal_text(n / 10) + digit_text(n % 10)
    }
}

/// How a size is written in a diagnostic.
pub open spec fn size_text(size: Size) -> Seq<char> {
    "Size { width: "@ + decimal_text(size.width as nat) + ", height: "@ + decimal_text(
        size.height as nat,
    ) + " }"@
}

/// The diagnostic for a size that is larger than `limit`, the room that a container
/// has left inside its padding.
pub open spec fn too_large_text(size: Size, limit: Size) -> Seq<char> {
    "Rectangle size "@ + size_text(size) + " is greater than max size "@ + size_text(limit)
}

/// The diagnostic for a placement that ran out of room.
pub open spec fn out_of_space_text() -> Seq<char> {
    "Could not fit all rectangles in max size"@
}

fn digit_str(d: usize) -> (text: &'static str)
    requires
        d < 10,
    ensures
        text@ == digit_text(d as nat),
{
    if d == 0 {
        "0"
    } else if d == 1 {
        "1"
    } else if d == 2 {
        "2"
    } else if d == 3 {
        "3"
    } else if d == 4 {
        "4"
    } else if d == 5 {
        "5"
    } else if d == 6 {
        "6"
    } else if d == 7 {
        "7"
    } else if d == 8 {
        "8"
    } else {
        "9"
    }
}

fn append_decimal(text: &mut String, n: usize)
    ensures
        final(text)@ == old(text)@ + decimal_text(n as nat),
    decreases n,
{
    if n >= 10 {
        append_decimal(text, n / 10);
    }
    text.append(digit_str(n % 10));
    proof {
        if n >= 10 {
        }
    }
}

fn append_size(text: &mut String, size: &Size)
    ensures
        final(text)@ == old(text)@ + size_text(*size),
{
    text.append("Size { width: ");
    append_decimal(text, size.width);
    text.append(", height: ");
    append_decimal(text, size.height);
    text.append(" }");
}

/// Writes the diagnostic for `size`, which is larger than `limit`.
pub fn too_large_message(size: &Size, limit: &Size) -> (message: String)
    ensures
        message@ == too_large_text(*size, *limit),
{
    let mut message = String::from_str("Rectangle size ");
    append_size(&mut message, size);
    message.append(" is greater than max size ");
    append_size(&mut message, limit);
    message
}

/// Writes the diagnostic for a placement that ran out of room.
pub fn out_of_space_message() -> (message: String)
    ensures
        message@ == out_of_space_text(),
{
    String::from_str("Could not fit all rectangles in max size")
}

} // verus!
