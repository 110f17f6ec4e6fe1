use vstd::prelude::*;
use crate::console::Color;

verus! {

/// One step of console output.
#[derive(Debug, Clone, PartialEq, Eq)]
pub enum ConsoleOp {
    /// Switch the foreground and background colors.
    Colors { fg: Color, bg: Color },
    /// Write these characters at the cursor.
    Text(Vec<char>),
    /// Clear the screen and move the cursor to the origin.
    Clear,
    /// Step back one cell and blank it.
    Backspace,
}

/// Mathematical form of a `ConsoleOp`.
pub enum OpView {
    Colors(Color, Color),
    Text(Seq<char>),
    Clear,
    Backspace,
}

impl View for ConsoleOp {
    type V = OpView;

    open spec fn view(&self) -> OpView {
        match self {
            ConsoleOp::Colors { fg, bg } => OpView::Colors(*fg, *bg),
            ConsoleOp::Text(t) => OpView::Text(t@),
            ConsoleOp::Clear => OpView::Clear,
            ConsoleOp::Backspace => OpView::Backspace,
        }
    }
}

/// The views of a list of operations.
pub open spec fn ops_view(v: Seq<ConsoleOp>) -> Seq<OpView> {
    v.map_values(|o: ConsoleOp| o@)
}

/// All characters a list of operations writes, in order.
pub open spec fn printed(v: Seq<OpView>) -> Seq<char>
    decreases v.len(),
{
    if v.len() == 0 {
        Seq::empty()
    } else {
        let rest = printed(v.drop_last());
        match v.last() {
            OpView::Text(t) => rest + t,
            _ => rest,
        }
    }
}

/// Decimal digits of `n`, most significant first, without leading zeros.
pub open spec fn dec(n: nat) -> Seq<char>
    decreases n,
{
    if n < 10 {
        seq![digit(n)]
    } else {
        dec(n / 10).push(digit(n % 10))
    }
}

/// The character of a decimal digit.
pub open spec fn digit(d: nat) -> char {
    if d == 0 { '0' } else if d == 1 { '1' } else if d == 2 { '2' } else if d == 3 { '3' }
    else if d == 4 { '4' } else if d == 5 { '5' } else if d == 6 { '6' } else if d == 7 { '7' }
    else if d == 8 { '8' } else { '9' }
}

/// `n` in decimal with at least two digits.
pub open spec fn pad2(n: nat) -> Seq<char> {
    if n < 10 { seq!['0'] + dec(n) } else { dec(n) }
}

/// `n` in decimal with at least three digits.
pub open spec fn pad3(n: nat) -> Seq<char> {
    if n < 10 { seq!['0', '0'] + dec(n) } else if n < 100 { seq!['0'] + dec(n) } else { dec(n) }
}

fn digit_char(d: u128) -> (c: char)
    requires
        d < 10,
    ensures
        c == digit(d as nat),
{
    if d == 0 { '0' } else if d == 1 { '1' } else if d == 2 { '2' } else if d == 3 { '3' }
    else if d == 4 { '4' } else if d == 5 { '5' } else if d == 6 { '6' } else if d == 7 { '7' }
    else if d == 8 { '8' } else { '9' }
}

/// Appends the characters of `s`.
pub fn push_str(out: &mut Vec<char>, s: &str)
    ensures
        final(out)@ == old(out)@ + s@,
{
    let n = s.unicode_len();
    let mut i: usize = 0;
    while i < n
        invariant
            n == s@.len(),
            i <= n,
            out@ == old(out)@ + s@.take(i as int),
        decreases n - i,
    {
        out.push(s.get_char(i));
        assert(s@.take(i + 1) =~= s@.take(i as int).push(s@[i as int]));
        i = i + 1;
    }
    assert(s@.take(n as int) =~= s@);
}

/// The characters of `s` as a vector.
pub fn chars_of(s: &str) -> (r: Vec<char>)
    ensures
        r@ == s@,
{
    let mut r: Vec<char> = Vec::new();
    push_str(&mut r, s);
    assert(r@ =~= s@);
    r
}

/// Appends `n` in decimal.
pub fn push_decimal(out: &mut Vec<char>, n: u128)
    ensures
        final(out)@ == old(out)@ + dec(n as nat),
    decreases n,
{
    if n >= 10 {
        push_decimal(out, n / 10);
    }
    out.push(digit_char(n % 10));
    assert(final(out)@ =~= old(out)@ + dec(n as nat));
}

/// Appends `n` in decimal with at least two digits.
pub fn push_pad2(out: &mut Vec<char>, n: u128)
    ensures
        final(out)@ == old(out)@ + pad2(n as nat),
{
    if n < 10 {
        out.push('0');
    }
    push_decimal(out, n);
    assert(out@ =~= old(out)@ + pad2(n as nat));
}

/// Appends `n` in decimal with at least three digits.
pub fn push_pad3(out: &mut Vec<char>, n: u128)
    ensures
        final(out)@ == old(out)@ + pad3(n as nat),
{
    if n < 10 {
        out.push('0');
        out.push('0');
    } else if n < 100 {
        out.push('0');
    }
    push_decimal(out, n);
    assert(out@ =~= old(out)@ + pad3(n as nat));
}

/// Appends an operation that writes `s`.
pub fn say(ops: &mut Vec<ConsoleOp>, s: &str)
    ensures
        ops_view(final(ops)@) == ops_view(old(ops)@).push(OpView::Text(s@)),
{
    ops.push(ConsoleOp::Text(chars_of(s)));
    assert(ops_view(ops@) =~= ops_view(old(ops)@).push(OpView::Text(s@)));
}

/// Appends an operation that writes `t`.
pub fn say_chars(ops: &mut Vec<ConsoleOp>, t: Vec<char>)
    ensures
        ops_view(final(ops)@) == ops_view(old(ops)@).push(OpView::Text(t@)),
{
    let ghost tv = t@;
    ops.push(ConsoleOp::Text(t));
    assert(ops_view(ops@) =~= ops_view(old(ops)@).push(OpView::Text(tv)));
}

/// Appends a color switch.
pub fn set_colors(ops: &mut Vec<ConsoleOp>, fg: Color, bg: Color)
    ensures
        ops_view(final(ops)@) == ops_view(old(ops)@).push(OpView::Colors(fg, bg)),
{
    ops.push(ConsoleOp::Colors { fg, bg });
    assert(ops_view(ops@) =~= ops_view(old(ops)@).push(OpView::Colors(fg, bg)));
}

} // verus!
