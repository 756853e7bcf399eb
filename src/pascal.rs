//! Strings as length-prefixed runs of raw cells: the first cell holds the
//! byte length, each following cell eight bytes of UTF-8 in little-endian
//! order, the last one padded with zeros.
use vstd::bytes::{spec_u64_from_le_bytes, spec_u64_to_le_bytes, u64_from_le_bytes, u64_to_le_bytes};
use vstd::prelude::*;
use vstd::utf8::{decode_utf8, encode_utf8, valid_utf8};

use crate::error::{VMError, VMResult};
use crate::fractal::FractalMemory;
use crate::memory::{HandlerMemory, SENTINEL};

verus! {

/// `b` with zeros appended up to a multiple of eight bytes.
pub open spec fn pad8(b: Seq<u8>) -> Seq<u8> {
    b + Seq::new(((8 - b.len() % 8) % 8) as nat, |i: int| 0u8)
}

/// The raw value that bytes `8k .. 8k + 8` of `p` pack into.
pub open spec fn chunk_value(p: Seq<u8>, k: int) -> i64 {
    spec_u64_from_le_bytes(p.subrange(8 * k, 8 * k + 8)) as i64
}

/// One raw cell for each eight bytes of `p`.
pub open spec fn packed(p: Seq<u8>) -> Seq<(usize, i64)> {
    Seq::new(p.len() / 8, |k: int| (SENTINEL, chunk_value(p, k)))
}

/// The cells that encode the bytes `b`.
pub open spec fn pascal_cells(b: Seq<u8>) -> Seq<(usize, i64)> {
    seq![(SENTINEL, b.len() as i64)] + packed(pad8(b))
}

/// The bytes that the values of `cells` unpack into, eight per cell.
pub open spec fn unpacked(cells: Seq<(usize, i64)>) -> Seq<u8>
    decreases cells.len(),
{
    if cells.len() == 0 {
        Seq::empty()
    } else {
        unpacked(cells.drop_last()) + spec_u64_to_le_bytes(cells.last().1 as u64)
    }
}

/// What a run of cells decodes to as a string: the characters of the
/// first `n` unpacked bytes, where `n` is the value of the first cell.
pub open spec fn pascal_decode(cells: Seq<(usize, i64)>) -> VMResult<Seq<char>> {
    if cells.len() == 0 {
        Err(VMError::IllegalAccess)
    } else {
        let n = cells[0].1;
        let bytes = unpacked(cells.drop_first());
        if n < 0 || n > bytes.len() {
            Err(VMError::IllegalAccess)
        } else if !valid_utf8(bytes.subrange(0, n as int)) {
            Err(VMError::InvalidString)
        } else {
            Ok(decode_utf8(bytes.subrange(0, n as int)))
        }
    }
}

impl HandlerMemory {
    /// Encodes a string as a view that belongs to every space.
    pub fn str_to_fractal(s: &str) -> (r: FractalMemory)
        ensures
            r.block@ == pascal_cells(encode_utf8(s@)),
            r.hm_id == 0,
            r.hm_addr is None,
    {
        let bytes = s.as_bytes();
        let ghost b = encode_utf8(s@);
        let ghost p = pad8(b);
        let mut padded: Vec<u8> = Vec::new();
        let mut i: usize = 0;
        while i < bytes.len()
            invariant
                bytes@ == b,
                i <= b.len(),
                padded@ == b.subrange(0, i as int),
            decreases b.len() - i,
        {
            padded.push(bytes[i]);
            i = i + 1;
        }
        let pad: usize = (8 - bytes.len() % 8) % 8;
        assert(b.len() + pad == p.len());
        assert(p.len() % 8 == 0);
        let mut t: usize = 0;
        while t < pad
            invariant
                pad == (8 - b.len() % 8) % 8,
                t <= pad,
                padded@ == b + Seq::new(t as nat, |i: int| 0u8),
            decreases pad - t,
        {
            padded.push(0);
            t = t + 1;
            assert(padded@ =~= b + Seq::new(t as nat, |i: int| 0u8));
        }
        assert(padded@ =~= p);
        assert(padded.len() as int == p.len());
        let mut cells: Vec<(usize, i64)> = Vec::new();
        cells.push((SENTINEL, bytes.len() as i64));
        let mut k: usize = 0;
        while k < padded.len() / 8
            invariant
                padded@ == p,
                p.len() % 8 == 0,
                p.len() <= usize::MAX,
                k <= p.len() / 8,
                cells@.len() == k + 1,
                cells@[0] == (SENTINEL, b.len() as i64),
                forall|q: int| 0 <= q < k ==> #[trigger] cells@[q + 1] == packed(p)[q],
            decreases p.len() / 8 - k,
        {
            assert(8 * k + 8 <= p.len());
            let mut chunk: Vec<u8> = Vec::new();
            let mut j: usize = 0;
            while j < 8
                invariant
                    padded@ == p,
                    p.len() % 8 == 0,
                    p.len() <= usize::MAX,
                    k < p.len() / 8,
                    8 * k + 8 <= p.len(),
                    j <= 8,
                    chunk@ == p.subrange(8 * k, 8 * k + j),
                decreases 8 - j,
            {
                chunk.push(padded[8 * k + j]);
                j = j + 1;
            }
            assert(chunk@ =~= p.subrange(8 * k, 8 * k + 8));
            let v = u64_from_le_bytes(chunk.as_slice()) as i64;
            assert(v == chunk_value(p, k as int));
            assert(packed(p)[k as int] == (SENTINEL, v));
            cells.push((SENTINEL, v));
            k = k + 1;
        }
        assert forall|q: int| 0 <= q < cells@.len() implies #[trigger] cells@[q] == pascal_cells(b)[q] by {
            if q > 0 {
                assert(cells@[(q - 1) + 1] == packed(p)[q - 1]);
            }
        }
        assert(cells@ =~= pascal_cells(b));
        FractalMemory::new(cells)
    }

    /// Decodes a view as a length-prefixed UTF-8 string.
    pub fn fractal_to_string(f: FractalMemory) -> (r: VMResult<String>)
        ensures
            match pascal_decode(f.block@) {
                Ok(chars) => r matches Ok(t) && t@ == chars,
                Err(e) => r == Err::<String, VMError>(e),
            },
    {
        match decode_cells(&f.block) {
            Some(Ok(t)) => Ok(t),
            Some(Err(())) => Err(VMError::InvalidString),
            None => Err(VMError::IllegalAccess),
        }
    }
}

/// Decodes a run of cells: `None` where it is not shaped as a string (no
/// length cell, or a length past the bytes), an error where the bytes are
/// not UTF-8.
pub(crate) fn decode_cells(cells: &Vec<(usize, i64)>) -> (r: Option<Result<String, ()>>)
    ensures
        match pascal_decode(cells@) {
            Ok(chars) => r matches Some(Ok(t)) && t@ == chars,
            Err(VMError::InvalidString) => r == Some(Err::<String, ()>(())),
            Err(_) => r is None,
        },
{
    if cells.len() == 0 {
        return None;
    }
    let mut bytes: Vec<u8> = Vec::new();
    let mut i: usize = 1;
    while i < cells.len()
        invariant
            1 <= i <= cells@.len(),
            bytes@ == unpacked(cells@.subrange(1, i as int)),
        decreases cells@.len() - i,
    {
        let chunk = u64_to_le_bytes(cells[i].1 as u64);
        let mut j: usize = 0;
        let ghost before = bytes@;
        while j < 8
            invariant
                chunk@.len() == 8,
                j <= 8,
                bytes@ == before + chunk@.subrange(0, j as int),
            decreases 8 - j,
        {
            bytes.push(chunk[j]);
            j = j + 1;
        }
        assert(cells@.subrange(1, i + 1).drop_last() =~= cells@.subrange(1, i as int));
        assert(bytes@ =~= before + chunk@);
        i = i + 1;
    }
    assert(cells@.subrange(1, cells@.len() as int) =~= cells@.drop_first());
    let n = cells[0].1;
    if n < 0 || (n as u64) > (bytes.len() as u64) {
        return None;
    }
    let mut head: Vec<u8> = Vec::new();
    let mut k: usize = 0;
    while k < n as usize
        invariant
            0 <= n <= bytes@.len(),
            k <= n,
            head@ == bytes@.subrange(0, k as int),
        decreases n - k,
    {
        head.push(bytes[k]);
        k = k + 1;
    }
    match utf8_decode(head.as_slice()) {
        Some(t) => Some(Ok(t)),
        None => Some(Err(())),
    }
}

/// Relies on `std::str::from_utf8`: it accepts exactly the valid UTF-8
/// byte runs, and gives the characters they encode.
#[verifier::external_body]
fn utf8_decode(b: &[u8]) -> (r: Option<String>)
    ensures
        r is Some <==> valid_utf8(b@),
        r matches Some(t) ==> t@ == decode_utf8(b@),
{
    std::str::from_utf8(b).ok().map(|t| t.to_string())
}

} // verus!
