//! The measures of the boxes and rules drawn on the terminal.

use vstd::prelude::*;

verus! {

/// The width taken where the terminal does not tell its own.
pub const DEFAULT_WIDTH: usize = 60;

/// No box or rule is narrower than this.
pub const MIN_WIDTH: usize = 40;

/// No box or rule is wider than this.
pub const MAX_WIDTH: usize = 100;

/// `n` held between `low` and `high`.
pub open spec fn clamped(n: int, low: int, high: int) -> int {
    if n < low {
        low
    } else if n > high {
        high
    } else {
        n
    }
}

/// The columns to go by: those of the terminal, or the default.
pub open spec fn columns_or_default(columns: Option<u16>) -> int {
    match columns {
        Some(w) => w as int,
        None => DEFAULT_WIDTH as int,
    }
}

/// `a - b`, and 0 where `b` is the larger.
pub open spec fn minus(a: int, b: int) -> int {
    if a >= b {
        a - b
    } else {
        0
    }
}

/// The width of a box on a terminal of `columns` columns.
pub fn box_width(columns: Option<u16>) -> (width: usize)
    ensures
        width == clamped(columns_or_default(columns), MIN_WIDTH as int, MAX_WIDTH as int),
        MIN_WIDTH <= width <= MAX_WIDTH,
{
    let wanted: usize = match columns {
        Some(w) => w as usize,
        None => DEFAULT_WIDTH,
    };
    if wanted < MIN_WIDTH {
        MIN_WIDTH
    } else if wanted > MAX_WIDTH {
        MAX_WIDTH
    } else {
        wanted
    }
}

/// The width of a rule on a terminal of `columns` columns: two less than
/// the terminal, within the limits.
pub fn separator_width(columns: Option<u16>) -> (width: usize)
    ensures
        width == clamped(minus(columns_or_default(columns), 2), MIN_WIDTH as int, MAX_WIDTH as int),
        MIN_WIDTH <= width <= MAX_WIDTH,
{
    let wanted: usize = match columns {
        Some(w) => w as usize,
        None => DEFAULT_WIDTH,
    };
    let inner: usize = if wanted >= 2 {
        wanted - 2
    } else {
        0
    };
    if inner < MIN_WIDTH {
        MIN_WIDTH
    } else if inner > MAX_WIDTH {
        MAX_WIDTH
    } else {
        inner
    }
}

/// The room between the two sides of a box of width `width`.
pub fn inner_width(width: usize) -> (inner: usize)
    ensures
        inner == minus(width as int, 2),
{
    if width >= 2 {
        width - 2
    } else {
        0
    }
}

/// The blanks to the left and to the right of a content of `len` characters
/// centred in `inner` columns. Together they fill the row; where they
/// cannot be equal the right side has one more. A content too long for the
/// row has none.
pub fn centered_padding(inner: usize, len: usize) -> (pad: (usize, usize))
    ensures
        pad.0 + pad.1 == minus(inner as int, len as int),
        pad.0 == minus(inner as int, len as int) / 2,
        pad.0 <= pad.1 <= pad.0 + 1,
{
    let total: usize = if inner >= len {
        inner - len
    } else {
        0
    };
    let left: usize = total / 2;
    (left, total - left)
}

/// The blanks behind a content of `len` characters set at the left of
/// `inner` columns.
pub fn trailing_padding(inner: usize, len: usize) -> (pad: usize)
    ensures
        pad == minus(inner as int, len as int),
{
    if inner >= len {
        inner - len
    } else {
        0
    }
}

} // verus!
