use vstd::prelude::*;
use vstd::arithmetic::div_mod::{
    lemma_div_is_ordered, lemma_fundamental_div_mod, lemma_fundamental_div_mod_converse,
};

use crate::error::MemoryError;
use crate::physical::PhysicalMemory;

verus! {

/// The width of a display row in the memory viewer.
pub const ROW_WIDTH: usize = 16;

/// The character shown for byte `b`: itself when it is printable ASCII
/// (neither a control character nor outside ASCII), else `.`.
pub open spec fn decoded(b: u8) -> u8 {
    if 0x20 <= b && b <= 0x7e {
        b
    } else {
        0x2eu8
    }
}

/// The text rendering of a run of bytes, one character per byte.
pub open spec fn decode_text(bytes: Seq<u8>) -> Seq<char> {
    Seq::new(bytes.len(), |j: int| decoded(bytes[j]) as char)
}

/// Rows of `width` bytes needed to cover `len` bytes: `ceil(len / width)`.
pub open spec fn row_count(len: nat, width: nat) -> nat
    recommends
        width > 0,
{
    if len % width == 0 {
        len / width
    } else {
        len / width + 1
    }
}

/// The bytes of row `i`: from `i * width` up to `(i + 1) * width` or the end.
pub open spec fn chunk(s: Seq<u8>, width: nat, i: nat) -> Seq<u8> {
    let start = (i * width) as int;
    let end = if start + width <= s.len() { start + width } else { s.len() as int };
    s.subrange(start, end)
}

/// One displayed row of memory.
pub struct Row {
    /// Address of the first byte of the row.
    pub offset: usize,
    /// The row's bytes: a full row, or fewer for the last one.
    pub bytes: Vec<u8>,
    /// One character per byte, see `decoded`.
    pub text: String,
}

/// `r` is row `i` of `s` cut in rows of `width` bytes.
pub open spec fn is_row(r: Row, s: Seq<u8>, width: nat, i: nat) -> bool {
    &&& r.offset == i * width
    &&& r.bytes@ == chunk(s, width, i)
    &&& r.text@ == decode_text(chunk(s, width, i))
}

/// `rows` is `s` cut in rows of `width` bytes, in address order.
pub open spec fn are_rows(rows: Seq<Row>, s: Seq<u8>, width: nat) -> bool {
    &&& rows.len() == row_count(s.len(), width)
    &&& forall|i: int| 0 <= i < rows.len() ==> is_row(#[trigger] rows[i], s, width, i as nat)
}

/// `rows` is some content of a memory of `size` bytes cut in rows of
/// `width` bytes.
pub open spec fn is_snapshot(rows: Seq<Row>, size: nat, width: nat) -> bool {
    exists|s: Seq<u8>| s.len() == size && #[trigger] are_rows(rows, s, width)
}

/// Relies on String::push: appends the one character at the end.
#[verifier::external_body]
fn push_char(s: &mut String, c: char)
    ensures
        final(s)@ == old(s)@.push(c),
{
    s.push(c)
}

/// The character shown for byte `b`, see `decoded`.
pub fn decode_byte(b: u8) -> (r: u8)
    ensures
        r == decoded(b),
{
    if 0x20 <= b && b <= 0x7e {
        b
    } else {
        0x2eu8
    }
}

/// Builds the row that covers `s[start..end]`.
fn make_row(s: &Vec<u8>, start: usize, end: usize) -> (r: Row)
    requires
        start <= end <= s@.len(),
    ensures
        r.offset == start,
        r.bytes@ == s@.subrange(start as int, end as int),
        r.text@ == decode_text(s@.subrange(start as int, end as int)),
{
    let mut bytes: Vec<u8> = Vec::with_capacity(end - start);
    let mut text = String::new();
    let mut j: usize = start;
    while j < end
        invariant
            start <= j <= end <= s@.len(),
            bytes@ == s@.subrange(start as int, j as int),
            text@ == decode_text(s@.subrange(start as int, j as int)),
        decreases end - j,
    {
        let b = s[j];
        bytes.push(b);
        push_char(&mut text, decode_byte(b) as char);
        j = j + 1;
        assert(bytes@ =~= s@.subrange(start as int, j as int));
        assert(text@ =~= decode_text(s@.subrange(start as int, j as int)));
    }
    Row { offset: start, bytes, text }
}

/// Cuts `s` in rows of `width` bytes: every row full but maybe the last,
/// each with its offset, bytes and decoded text.
pub fn rows_of_bytes(s: &Vec<u8>, width: usize) -> (rows: Vec<Row>)
    requires
        width > 0,
    ensures
        are_rows(rows@, s@, width as nat),
{
    let n = s.len();
    let mut rows: Vec<Row> = Vec::new();
    let mut start: usize = 0;
    assert(0 * width == 0) by (nonlinear_arith);
    while start < n
        invariant
            width > 0,
            n == s@.len(),
            start <= n,
            start < n ==> start == rows@.len() * width,
            start == n ==> rows@.len() == row_count(n as nat, width as nat),
            forall|i: int|
                0 <= i < rows@.len() ==> is_row(#[trigger] rows@[i], s@, width as nat, i as nat),
        decreases n - start,
    {
        let ghost i = rows@.len();
        let end = if n - start <= width {
            n
        } else {
            start + width
        };
        let row = make_row(s, start, end);
        assert(chunk(s@, width as nat, i) == s@.subrange(start as int, end as int));
        rows.push(row);
        proof {
            if n - start < width {
                lemma_fundamental_div_mod_converse(n as int, width as int, i as int, n - start);
            } else if n - start == width {
                assert((i + 1) * width == i * width + width) by (nonlinear_arith);
                lemma_fundamental_div_mod_converse(n as int, width as int, (i + 1) as int, 0);
            } else {
                assert((i + 1) * width == i * width + width) by (nonlinear_arith);
            }
        }
        start = end;
    }
    proof {
        if n == 0 {
            lemma_fundamental_div_mod_converse(0, width as int, 0, 0);
        }
    }
    rows
}

/// Takes one snapshot of the memory under a single read guard, gives the guard
/// up, then cuts the copy in rows of `width` bytes, so no caller holds the
/// lock while it walks the rows. `LockPoisoned` when the memory is poisoned.
pub fn snapshot_rows(memory: &PhysicalMemory, width: usize) -> (r: Result<Vec<Row>, MemoryError>)
    requires
        width > 0,
    ensures
        r matches Ok(rows) ==> is_snapshot(rows@, memory.layout().size as nat, width as nat),
        r matches Err(e) ==> e == MemoryError::LockPoisoned,
{
    let guard = match memory.acquire_read() {
        Ok(g) => g,
        Err(e) => return Err(e),
    };
    let bytes = guard.copy_bytes();
    assert(bytes@.len() == memory.layout().size);
    guard.release();
    let rows = rows_of_bytes(&bytes, width);
    assert(are_rows(rows@, bytes@, width as nat));
    Ok(rows)
}

/// The row, `width` bytes wide, that holds `address` in a memory of `size`
/// bytes; `InvalidAddress` when `address` is not an address of that memory.
pub fn goto(size: usize, address: usize, width: usize) -> (r: Result<usize, MemoryError>)
    requires
        width > 0,
    ensures
        address < size ==> r == Ok::<usize, MemoryError>(address / width),
        address >= size ==> r == Err::<usize, MemoryError>(MemoryError::InvalidAddress),
{
    if address < size {
        Ok(address / width)
    } else {
        Err(MemoryError::InvalidAddress)
    }
}

/// The row that `goto` names for an address of the memory is the row that
/// shows that address's byte: in the rows cut from the memory's bytes `s`,
/// row `address / width` exists, starts at or before `address`, and holds
/// `s[address]` at place `address % width`.
pub proof fn goto_row_holds_address(rows: Seq<Row>, s: Seq<u8>, width: nat, address: int)
    requires
        width > 0,
        are_rows(rows, s, width),
        0 <= address < s.len(),
    ensures
        address / (width as int) < rows.len(),
        rows[address / (width as int)].offset <= address,
        address % (width as int) < rows[address / (width as int)].bytes@.len(),
        rows[address / (width as int)].bytes@[address % (width as int)] == s[address],
{
    let w = width as int;
    let n = s.len() as int;
    let i = address / w;
    let r = address % w;
    lemma_fundamental_div_mod(address, w);
    lemma_fundamental_div_mod(n, w);
    lemma_div_is_ordered(address, n, w);
    assert(0 <= r < w);
    assert(0 <= i);
    if n % w == 0 {
        assert(i < n / w) by (nonlinear_arith)
            requires
                address == w * i + r,
                n == w * (n / w),
                address < n,
                0 <= r,
                w > 0,
        ;
    }
    assert(i < rows.len());
    assert(is_row(rows[i], s, width, i as nat));
    assert(i * w == w * i) by (nonlinear_arith);
    let start = i * w;
    assert(rows[i].bytes@ == chunk(s, width, i as nat));
    assert(start + r == address);
}

} // verus!
