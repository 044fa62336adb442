use vstd::arithmetic::div_mod::{
    lemma_div_is_ordered, lemma_fundamental_div_mod, lemma_fundamental_div_mod_converse,
    lemma_mod_bound,
};
use vstd::arithmetic::mul::lemma_mul_left_inequality;
use vstd::prelude::*;

verus! {

/// Columns taken by the padding around the address pane.
pub const ADDR_PANE_PADDING: u16 = 4;

/// Fewest bytes per row for which the three panes are drawn.
pub const MIN_BYTES_PER_ROW: u16 = 8;

/// Columns taken by the pane borders of the body.
pub const PANE_BORDERS: u16 = 3;

/// Relies on `String::push`: it appends the one character to the end of the string.
pub assume_specification[ String::push ](s: &mut String, ch: char)
    ensures
        final(s)@ == old(s)@.push(ch),
;

/// The character of hex digit `d` (`0..16`), in upper or lower case.
pub open spec fn hex_digit_char(d: nat, upper: bool) -> char {
    if d < 10 {
        (48 + d) as char
    } else if upper {
        (55 + d) as char
    } else {
        (87 + d) as char
    }
}

/// A byte as two hex digits.
pub open spec fn byte_hex(b: u8, upper: bool) -> Seq<char> {
    seq![hex_digit_char(b as nat / 16, upper), hex_digit_char(b as nat % 16, upper)]
}

/// The spaces written before the byte at index `i` of a hex row: none before
/// the first byte, two at the start of each group, one elsewhere.
pub open spec fn group_gap(i: nat, grouping: nat) -> Seq<char> {
    if i == 0 {
        seq![]
    } else if i % grouping == 0 {
        seq![' ', ' ']
    } else {
        seq![' ']
    }
}

/// A row of bytes as upper-case hex pairs, separated by spaces, with one more
/// space between groups of `grouping` bytes.
pub open spec fn hex_row(bytes: Seq<u8>, grouping: nat) -> Seq<char>
    decreases bytes.len(),
{
    if bytes.len() == 0 {
        seq![]
    } else {
        hex_row(bytes.drop_last(), grouping) + group_gap((bytes.len() - 1) as nat, grouping)
            + byte_hex(bytes.last(), true)
    }
}

/// A byte as shown in the ASCII pane: itself if it is a graphic ASCII
/// character (`!` to `~`), a dot otherwise.
pub open spec fn ascii_char(b: u8) -> char {
    if 0x21 <= b <= 0x7e {
        b as char
    } else {
        '.'
    }
}

/// A row of bytes as shown in the ASCII pane.
pub open spec fn ascii_row(bytes: Seq<u8>) -> Seq<char> {
    bytes.map_values(|b: u8| ascii_char(b))
}

/// Number of hexadecimal digits needed to write `v` (none for zero).
pub open spec fn hex_digit_count(v: nat) -> nat
    decreases v,
{
    if v == 0 {
        0
    } else {
        1 + hex_digit_count(v / 16)
    }
}

/// `v` in lower-case hexadecimal, without leading zeros (`"0"` for zero).
pub open spec fn hex_lower(v: nat) -> Seq<char>
    decreases v,
{
    if v < 16 {
        seq![hex_digit_char(v, false)]
    } else {
        hex_lower(v / 16).push(hex_digit_char(v % 16, false))
    }
}

/// `s` with `'0'`s in front up to `width` characters.
pub open spec fn zero_padded(s: Seq<char>, width: nat) -> Seq<char> {
    if s.len() < width {
        Seq::new((width - s.len()) as nat, |i: int| '0') + s
    } else {
        s
    }
}

/// The address shown for row `row`: its first byte's offset in lower-case hex,
/// zero-padded to `width` digits.
pub open spec fn address_text(row: nat, bytes_per_row: nat, width: nat) -> Seq<char> {
    zero_padded(hex_lower(row * bytes_per_row), width)
}

/// Bytes per row that fit in `width` columns beside an address column of
/// `addr_width` columns, a whole number of groups of `grouping` bytes; zero when
/// the terminal is too narrow.
///
/// A row of `n` bytes takes `3n + n / grouping - 1` columns of hex and `n` of
/// ASCII, and the borders take `PANE_BORDERS` more.
pub open spec fn bytes_per_row_for(width: int, addr_width: int, grouping: int) -> int {
    let avail = width - addr_width - PANE_BORDERS + 1;
    if avail < 0 {
        0
    } else {
        grouping * (avail / (4 * grouping + 1))
    }
}

/// A number has no more hex digits than its value.
pub proof fn lemma_hex_digit_count_le(v: nat)
    ensures
        hex_digit_count(v) <= v,
    decreases v,
{
    if v > 0 {
        lemma_hex_digit_count_le(v / 16);
    }
}

/// The lower-case hex text of `v` has `hex_digit_count(v)` characters, and one
/// for zero.
pub proof fn lemma_hex_lower_len(v: nat)
    ensures
        hex_lower(v).len() == if v == 0 {
            1
        } else {
            hex_digit_count(v)
        },
    decreases v,
{
    if v >= 16 {
        assert(v / 16 > 0);
        lemma_hex_lower_len(v / 16);
    } else if v > 0 {
        assert(v / 16 == 0);
        assert(hex_digit_count(0) == 0);
    }
}

/// A hex row of `n > 0` bytes has `3n - 1 + (n - 1) / grouping` characters:
/// two digits a byte, one space between bytes and one more at each group
/// start.
pub proof fn lemma_hex_row_len(bytes: Seq<u8>, grouping: nat)
    requires
        grouping >= 1,
    ensures
        bytes.len() > 0 ==> hex_row(bytes, grouping).len() == 3 * bytes.len() - 1 + (
        bytes.len() - 1) as nat / grouping,
        bytes.len() == 0 ==> hex_row(bytes, grouping).len() == 0,
    decreases bytes.len(),
{
    if bytes.len() > 0 {
        let n = bytes.len();
        let prev = bytes.drop_last();
        lemma_hex_row_len(prev, grouping);
        assert(hex_row(bytes, grouping).len() == hex_row(prev, grouping).len() + group_gap(
            (n - 1) as nat,
            grouping,
        ).len() + 2);
        if n == 1 {
            assert(prev.len() == 0);
        } else {
            lemma_div_step((n - 1) as int, grouping as int);
        }
    }
}

proof fn lemma_div_step(k: int, g: int)
    requires
        k >= 1,
        g >= 1,
    ensures
        (k - 1) / g + (if k % g == 0 {
            1int
        } else {
            0
        }) == k / g,
{
    lemma_fundamental_div_mod(k, g);
    lemma_mod_bound(k, g);
    let q = k / g;
    let r = k % g;
    if r == 0 {
        assert(k - 1 == (q - 1) * g + (g - 1)) by (nonlinear_arith)
            requires
                k == g * q + r,
                r == 0,
        ;
        lemma_fundamental_div_mod_converse(k - 1, g, q - 1, g - 1);
    } else {
        assert(k - 1 == q * g + (r - 1)) by (nonlinear_arith)
            requires
                k == g * q + r,
        ;
        lemma_fundamental_div_mod_converse(k - 1, g, q, r - 1);
    }
}

/// When the row is a whole number `n > 0` of groups of `grouping` bytes, its
/// hex text has `3n - 1 + n / grouping - 1` characters.
pub proof fn lemma_hex_row_len_whole_groups(bytes: Seq<u8>, grouping: nat)
    requires
        grouping >= 1,
        bytes.len() > 0,
        bytes.len() % grouping == 0,
    ensures
        hex_row(bytes, grouping).len() == 3 * bytes.len() - 1 + bytes.len() / grouping - 1,
{
    lemma_hex_row_len(bytes, grouping);
    lemma_div_step(bytes.len() as int, grouping as int);
}

/// The bytes per row never exceed the columns that are left for them.
pub proof fn lemma_bytes_per_row_bound(width: int, addr_width: int, grouping: int)
    requires
        grouping >= 1,
    ensures
        0 <= bytes_per_row_for(width, addr_width, grouping),
        bytes_per_row_for(width, addr_width, grouping) > 0 ==> bytes_per_row_for(
            width,
            addr_width,
            grouping,
        ) <= width - addr_width - PANE_BORDERS + 1,
{
    let avail = width - addr_width - PANE_BORDERS + 1;
    let d = 4 * grouping + 1;
    if avail >= 0 {
        assert(0 <= grouping * (avail / d) <= avail) by (nonlinear_arith)
            requires
                grouping >= 1,
                avail >= 0,
                d == 4 * grouping + 1,
        ;
    }
}

/// More width never gives fewer bytes per row.
pub proof fn lemma_bytes_per_row_monotonic(w1: int, w2: int, addr_width: int, grouping: int)
    requires
        grouping >= 1,
        w1 <= w2,
    ensures
        0 <= bytes_per_row_for(w1, addr_width, grouping) <= bytes_per_row_for(
            w2,
            addr_width,
            grouping,
        ),
{
    let a1 = w1 - addr_width - PANE_BORDERS + 1;
    let a2 = w2 - addr_width - PANE_BORDERS + 1;
    let d = 4 * grouping + 1;
    if a1 >= 0 {
        lemma_div_is_ordered(a1, a2, d);
        lemma_mul_left_inequality(grouping, a1 / d, a2 / d);
        assert(0 <= grouping * (a1 / d)) by (nonlinear_arith)
            requires
                grouping >= 1,
                a1 >= 0,
                d >= 1,
        ;
    } else if a2 >= 0 {
        assert(0 <= grouping * (a2 / d)) by (nonlinear_arith)
            requires
                grouping >= 1,
                a2 >= 0,
                d >= 1,
        ;
    }
}

/// Minimum number of hex digits needed to represent `val`; zero needs none.
pub fn count_hexdigits(val: usize) -> (r: usize)
    ensures
        r == hex_digit_count(val as nat),
{
    proof {
        lemma_hex_digit_count_le(val as nat);
    }
    let mut rest: usize = val;
    let mut i: usize = 0;
    while rest != 0
        invariant
            i + hex_digit_count(rest as nat) == hex_digit_count(val as nat),
            hex_digit_count(val as nat) <= val,
        decreases rest,
    {
        rest = rest / 16;
        i = i + 1;
    }
    i
}

/// The character of hex digit `d`, in upper or lower case.
pub(crate) fn hex_digit(d: u8, upper: bool) -> (c: char)
    requires
        d < 16,
    ensures
        c == hex_digit_char(d as nat, upper),
{
    if d < 10 {
        (48 + d) as char
    } else if upper {
        (55 + d) as char
    } else {
        (87 + d) as char
    }
}

/// Appends the two hex digits of `b`.
fn push_byte_hex(s: &mut String, b: u8, upper: bool)
    ensures
        final(s)@ == old(s)@ + byte_hex(b, upper),
{
    s.push(hex_digit(b / 16, upper));
    s.push(hex_digit(b % 16, upper));
    assert(final(s)@ =~= old(s)@ + byte_hex(b, upper));
}

/// Formats a row of bytes as upper-case hex pairs separated by a space, with
/// one more space after every `blocksize`-th byte and no trailing space.
pub fn line_format_hex(bytes: &[u8], blocksize: u16) -> (r: String)
    requires
        blocksize >= 1,
    ensures
        r@ == hex_row(bytes@, blocksize as nat),
{
    let g = blocksize as usize;
    let mut s = String::new();
    let mut i: usize = 0;
    while i < bytes.len()
        invariant
            g == blocksize as usize,
            g >= 1,
            i <= bytes@.len(),
            s@ == hex_row(bytes@.subrange(0, i as int), g as nat),
        decreases bytes.len() - i,
    {
        let ghost before = s@;
        if i != 0 {
            if i % g == 0 {
                s.push(' ');
            }
            s.push(' ');
        }
        assert(s@ =~= before + group_gap(i as nat, g as nat));
        push_byte_hex(&mut s, bytes[i], true);
        assert(bytes@.subrange(0, i + 1).drop_last() =~= bytes@.subrange(0, i as int));
        i = i + 1;
    }
    assert(bytes@.subrange(0, bytes@.len() as int) =~= bytes@);
    s
}

/// Formats a row of bytes as ASCII: graphic characters as themselves, every
/// other byte (space included) as `'.'`.
pub fn line_format_ascii(bytes: &[u8]) -> (r: String)
    ensures
        r@ == ascii_row(bytes@),
{
    let mut s = String::new();
    let mut i: usize = 0;
    while i < bytes.len()
        invariant
            i <= bytes@.len(),
            s@ =~= ascii_row(bytes@.subrange(0, i as int)),
        decreases bytes.len() - i,
    {
        let b = bytes[i];
        if 0x21 <= b && b <= 0x7e {
            s.push(b as char);
        } else {
            s.push('.');
        }
        i = i + 1;
    }
    assert(bytes@.subrange(0, bytes@.len() as int) =~= bytes@);
    s
}

/// Appends `v` in lower-case hexadecimal, without leading zeros.
fn push_hex_lower(s: &mut String, v: usize)
    ensures
        final(s)@ == old(s)@ + hex_lower(v as nat),
    decreases v,
{
    if v >= 16 {
        push_hex_lower(s, v / 16);
    }
    s.push(hex_digit((v % 16) as u8, false));
    assert(final(s)@ =~= old(s)@ + hex_lower(v as nat));
}

/// The address of row `row_index`, that is `row_index * bytes_per_row`, in
/// lower-case hexadecimal, zero-padded on the left to `digit_width` digits.
pub fn format_address(row_index: usize, bytes_per_row: usize, digit_width: usize) -> (r: String)
    requires
        row_index * bytes_per_row <= usize::MAX,
    ensures
        r@ == address_text(row_index as nat, bytes_per_row as nat, digit_width as nat),
{
    let addr = row_index * bytes_per_row;
    let ndigits = if addr == 0 {
        1
    } else {
        count_hexdigits(addr)
    };
    proof {
        lemma_hex_lower_len(addr as nat);
    }
    let mut s = String::new();
    if ndigits < digit_width {
        let pad = digit_width - ndigits;
        let mut i: usize = 0;
        while i < pad
            invariant
                i <= pad,
                s@ =~= Seq::new(i as nat, |k: int| '0'),
            decreases pad - i,
        {
            s.push('0');
            i = i + 1;
        }
    }
    push_hex_lower(&mut s, addr);
    assert(s@ =~= address_text(row_index as nat, bytes_per_row as nat, digit_width as nat));
    s
}

/// Bytes per row that fit in a terminal `width` columns wide, beside an
/// address column `addr_width` wide, with a hex grouping of `blocksize` bytes:
/// `blocksize * floor((width - addr_width - PANE_BORDERS + 1) / (4 * blocksize + 1))`,
/// and zero when that is negative (the terminal is too narrow).
pub fn get_bytes_per_row(width: u16, addr_width: u16, blocksize: u16) -> (r: usize)
    requires
        blocksize >= 1,
    ensures
        r == bytes_per_row_for(width as int, addr_width as int, blocksize as int),
{
    let total = width as u32 + 1;
    let used = addr_width as u32 + PANE_BORDERS as u32;
    if total < used {
        return 0;
    }
    let avail = total - used;
    let g = blocksize as u32;
    let d = 4 * g + 1;
    let q = avail / d;
    assert(g * q <= avail) by (nonlinear_arith)
        requires
            q == avail / d,
            d == 4 * g + 1,
            g >= 1,
    ;
    (g * q) as usize
}

} // verus!
