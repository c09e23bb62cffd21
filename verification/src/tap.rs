//! The ZX Spectrum `.tap` container: length-prefixed blocks, of which a
//! z80test program's third is its CODE header and fourth its code.

use vstd::prelude::*;

verus! {

/// Why a `.tap` file holds no usable CODE block.
#[derive(Clone, Copy, Debug, PartialEq, Eq, Structural)]
pub enum TapError {
    /// Fewer than four blocks: not a BASIC loader followed by CODE.
    TooFewBlocks { found: usize },
    /// The third block is not a CODE header.
    NoCodeHeader,
    /// The fourth block is not a data block.
    NoDataBlock,
    /// The data block is shorter than the header says.
    LengthMismatch { expected: usize, got: usize },
}

/// The little-endian 16-bit value of two bytes.
pub open spec fn le16(lo: u8, hi: u8) -> u16 {
    ((hi as u16) << 8u16) | (lo as u16)
}

/// The blocks of `data` from offset `pos` on: each a 2-byte little-endian
/// length and that many bytes, the last cut short by the end of the data.
pub open spec fn blocks_from(data: Seq<u8>, pos: int) -> Seq<Seq<u8>>
    decreases data.len() + 0x20000 - pos,
{
    if 0 <= pos && pos + 2 <= data.len() {
        let length = le16(data[pos], data[pos + 1]) as int;
        let start = pos + 2;
        let end = if start + length < data.len() {
            start + length
        } else {
            data.len() as int
        };
        seq![data.subrange(start, end)] + blocks_from(data, start + length)
    } else {
        seq![]
    }
}

/// The CODE block of a z80test `.tap`: its payload, as long as the header
/// says, and its load address.
pub open spec fn code_block(data: Seq<u8>) -> Result<(Seq<u8>, u16), TapError> {
    let blocks = blocks_from(data, 0);
    if blocks.len() < 4 {
        Err(TapError::TooFewBlocks { found: blocks.len() as usize })
    } else {
        let header = blocks[2];
        if header.len() < 16 || header[0] != 0x00 || header[1] != 3 {
            Err(TapError::NoCodeHeader)
        } else {
            let length = le16(header[12], header[13]) as int;
            let load_addr = le16(header[14], header[15]);
            let code = blocks[3];
            if code.len() == 0 || code[0] != 0xFF {
                Err(TapError::NoDataBlock)
            } else if code.len() - 1 < length {
                Err(TapError::LengthMismatch { expected: length as usize, got: (code.len() - 1) as usize })
            } else {
                Ok((code.subrange(1, 1 + length), load_addr))
            }
        }
    }
}

fn copy_range(data: &[u8], start: usize, end: usize) -> (out: Vec<u8>)
    requires
        start <= end <= data.len(),
    ensures
        out@ == data@.subrange(start as int, end as int),
{
    let mut out: Vec<u8> = Vec::new();
    let mut i = start;
    while i < end
        invariant
            start <= i <= end,
            end <= data.len(),
            out@ == data@.subrange(start as int, i as int),
        decreases end - i,
    {
        out.push(data[i]);
        assert(data@.subrange(start as int, i as int + 1) =~= data@.subrange(start as int, i as int).push(data@[i as int]));
        i = i + 1;
    }
    out
}

/// Extract the CODE block payload and load address from a z80test `.tap`.
pub fn parse_tap_code_block(data: &[u8]) -> (r: Result<(Vec<u8>, u16), TapError>)
    requires
        data.len() <= usize::MAX - 0x20000,
    ensures
        match (r, code_block(data@)) {
            (Ok((code, addr)), Ok((c, a))) => code@ == c && addr == a,
            (Err(e), Err(ev)) => e == ev,
            _ => false,
        },
{
    let mut pos: usize = 0;
    let mut blocks: Vec<Vec<u8>> = Vec::new();
    while pos + 2 <= data.len()
        invariant
            data.len() <= usize::MAX - 0x20000,
            pos <= data.len() + 0x10000,
            blocks_from(data@, 0) == blocks.deep_view() + blocks_from(data@, pos as int),
        decreases data.len() + 0x10000 - pos,
    {
        let length = ((data[pos + 1] as u16) << 8u16) | (data[pos] as u16);
        let start = pos + 2;
        let end = if start + (length as usize) < data.len() {
            start + (length as usize)
        } else {
            data.len()
        };
        let block = copy_range(data, start, end);
        let ghost before = blocks.deep_view();
        assert(block.deep_view() =~= block@);
        let ghost bv = block@;
        blocks.push(block);
        assert(blocks.deep_view() =~= before.push(bv));
        assert(before + blocks_from(data@, pos as int) =~= blocks.deep_view() + blocks_from(
            data@,
            start as int + length as int,
        ));
        pos = start + (length as usize);
    }
    assert(blocks_from(data@, pos as int) =~= Seq::<Seq<u8>>::empty());
    assert(blocks.deep_view() + Seq::<Seq<u8>>::empty() =~= blocks.deep_view());
    if blocks.len() < 4 {
        return Err(TapError::TooFewBlocks { found: blocks.len() });
    }
    let ghost bs = blocks.deep_view();
    assert(blocks[2]@ == bs[2]);
    assert(blocks[3]@ == bs[3]);
    let code_header = &blocks[2];
    if code_header.len() < 16 || code_header[0] != 0x00 || code_header[1] != 3 {
        return Err(TapError::NoCodeHeader);
    }
    let length = (((code_header[13] as u16) << 8u16) | (code_header[12] as u16)) as usize;
    let load_addr = ((code_header[15] as u16) << 8u16) | (code_header[14] as u16);
    let code_data = &blocks[3];
    if code_data.len() == 0 || code_data[0] != 0xFF {
        return Err(TapError::NoDataBlock);
    }
    if code_data.len() - 1 < length {
        return Err(TapError::LengthMismatch { expected: length, got: code_data.len() - 1 });
    }
    Ok((copy_range(code_data.as_slice(), 1, 1 + length), load_addr))
}

} // verus!
