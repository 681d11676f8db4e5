//! Listing the chunks of an archive: which chunks are shown, where each
//! one starts, and how an offset and a chunk's data are written.
use vstd::prelude::*;
use crate::cli::value::chunk_type::ChunkType;
use crate::text::{digit_char, str_from_utf8};

verus! {

/// Bytes before the first chunk: the archive's magic header.
pub const ARCHIVE_HEADER_LEN: u64 = 8;

/// Bytes a chunk takes besides its data: its length, type and checksum.
pub const CHUNK_OVERHEAD: u64 = 12;

/// What the listing reads of one chunk: its type and the length of its data.
#[derive(Clone, Copy, Debug, PartialEq, Eq)]
pub struct ChunkInfo {
    pub ty: ChunkType,
    pub length: u32,
}

/// One listed chunk: its place among all chunks (from 1), its type, the
/// length of its data, and the byte offset where it starts.
#[derive(Clone, Copy, Debug, PartialEq, Eq)]
pub struct ChunkRow {
    pub index: u64,
    pub ty: ChunkType,
    pub length: u32,
    pub offset: u64,
}

/// Whether a chunk type with bytes `ty` is among `set`.
pub open spec fn listed(ty: Seq<u8>, set: Seq<ChunkType>) -> bool {
    exists|i: int| 0 <= i < set.len() && (#[trigger] set[i]).0@ == ty
}

/// Whether a chunk of type `ty` is shown: it is among the included types
/// where any are given, and not among the excluded ones.
pub open spec fn shown(ty: Seq<u8>, wanted: Seq<ChunkType>, exclude: Seq<ChunkType>) -> bool {
    (wanted.len() == 0 || listed(ty, wanted)) && !listed(ty, exclude)
}

/// The offset of the chunk at position `i`: the header, then each chunk
/// before it with its overhead.
pub open spec fn chunk_offset(chunks: Seq<ChunkInfo>, i: int) -> int
    decreases i,
{
    if i <= 0 {
        ARCHIVE_HEADER_LEN as int
    } else {
        chunk_offset(chunks, i - 1) + chunks[i - 1].length + CHUNK_OVERHEAD
    }
}

/// The rows of the first `n` chunks, in order, of those that are shown.
pub open spec fn rows_of(chunks: Seq<ChunkInfo>, wanted: Seq<ChunkType>, exclude: Seq<ChunkType>, n: int) -> Seq<
    ChunkRow,
>
    decreases n,
{
    if n <= 0 {
        Seq::empty()
    } else {
        let before = rows_of(chunks, wanted, exclude, n - 1);
        let c = chunks[n - 1];
        if shown(c.ty.0@, wanted, exclude) {
            before.push(ChunkRow { index: n as u64, ty: c.ty, length: c.length, offset: chunk_offset(chunks, n - 1) as u64 })
        } else {
            before
        }
    }
}

/// Offsets grow along the chunks.
pub proof fn lemma_offset_grows(chunks: Seq<ChunkInfo>, i: int, j: int)
    requires
        0 <= i <= j,
    ensures
        chunk_offset(chunks, i) <= chunk_offset(chunks, j),
    decreases j - i,
{
    if i < j {
        lemma_offset_grows(chunks, i, j - 1);
    }
}

/// Offsets grow strictly along the chunks: each chunk takes at least its
/// overhead.
proof fn lemma_offset_grows_strictly(chunks: Seq<ChunkInfo>, i: int, j: int)
    requires
        0 <= i < j,
    ensures
        chunk_offset(chunks, i) < chunk_offset(chunks, j),
    decreases j - i,
{
    if i < j - 1 {
        lemma_offset_grows_strictly(chunks, i, j - 1);
    }
}

/// Each chunk before position `n` takes at least its overhead.
proof fn lemma_offset_floor(chunks: Seq<ChunkInfo>, n: int)
    requires
        0 <= n,
    ensures
        chunk_offset(chunks, n) >= ARCHIVE_HEADER_LEN + CHUNK_OVERHEAD * n,
    decreases n,
{
    if n > 0 {
        lemma_offset_floor(chunks, n - 1);
    }
}

/// Each row of the first `n` chunks names a shown chunk by its place, with
/// that chunk's type, length and offset, and the places grow along the rows.
proof fn lemma_rows_shape(chunks: Seq<ChunkInfo>, wanted: Seq<ChunkType>, exclude: Seq<ChunkType>, n: int)
    requires
        0 <= n <= chunks.len(),
        chunk_offset(chunks, n) <= u64::MAX,
    ensures
        forall|k: int|
            #![trigger rows_of(chunks, wanted, exclude, n)[k]]
            0 <= k < rows_of(chunks, wanted, exclude, n).len() ==> {
                let row = rows_of(chunks, wanted, exclude, n)[k];
                &&& 1 <= row.index <= n
                &&& row.offset == chunk_offset(chunks, row.index - 1)
                &&& row.ty == chunks[row.index - 1].ty
                &&& row.length == chunks[row.index - 1].length
                &&& shown(row.ty.0@, wanted, exclude)
            },
        forall|a: int, b: int|
            0 <= a < b < rows_of(chunks, wanted, exclude, n).len() ==> (#[trigger] rows_of(
                chunks,
                wanted,
                exclude,
                n,
            )[a]).index < (#[trigger] rows_of(chunks, wanted, exclude, n)[b]).index,
    decreases n,
{
    if n > 0 {
        lemma_offset_grows(chunks, n - 1, n);
        lemma_offset_floor(chunks, n);
        lemma_rows_shape(chunks, wanted, exclude, n - 1);
        let before = rows_of(chunks, wanted, exclude, n - 1);
        let rows = rows_of(chunks, wanted, exclude, n);
        if shown(chunks[n - 1].ty.0@, wanted, exclude) {
            assert forall|k: int| 0 <= k < before.len() implies rows[k] == before[k] by {}
            lemma_offset_floor(chunks, n - 1);
            let last = rows[before.len() as int];
            assert(last.index == n && last.offset == chunk_offset(chunks, n - 1));
            assert forall|k: int| 0 <= k < rows.len() implies {
                let row = #[trigger] rows[k];
                &&& 1 <= row.index <= n
                &&& row.offset == chunk_offset(chunks, row.index - 1)
                &&& row.ty == chunks[row.index - 1].ty
                &&& row.length == chunks[row.index - 1].length
                &&& shown(row.ty.0@, wanted, exclude)
            } by {
                if k < before.len() {
                    assert(rows[k] == before[k]);
                }
            }
            assert forall|a: int, b: int| 0 <= a < b < rows.len() implies (#[trigger] rows[a]).index < (
            #[trigger] rows[b]).index by {
                assert(rows[a] == before[a]);
                if b < before.len() {
                    assert(rows[b] == before[b]);
                }
            }
        } else {
            assert(rows == before);
        }
    }
}

/// A listing is in the order of the chunks: of two rows, the later one
/// names a later chunk, and one that starts further into the archive.
pub proof fn listed_rows_in_order(
    chunks: Seq<ChunkInfo>,
    wanted: Seq<ChunkType>,
    exclude: Seq<ChunkType>,
    i: int,
    j: int,
)
    requires
        chunk_offset(chunks, chunks.len() as int) <= u64::MAX,
        0 <= i < j < rows_of(chunks, wanted, exclude, chunks.len() as int).len(),
    ensures
        rows_of(chunks, wanted, exclude, chunks.len() as int)[i].index < rows_of(
            chunks,
            wanted,
            exclude,
            chunks.len() as int,
        )[j].index,
        rows_of(chunks, wanted, exclude, chunks.len() as int)[i].offset < rows_of(
            chunks,
            wanted,
            exclude,
            chunks.len() as int,
        )[j].offset,
{
    let n = chunks.len() as int;
    lemma_rows_shape(chunks, wanted, exclude, n);
    let a = rows_of(chunks, wanted, exclude, n)[i];
    let b = rows_of(chunks, wanted, exclude, n)[j];
    lemma_offset_grows_strictly(chunks, a.index - 1, b.index - 1);
}

/// Whether a chunk type with the bytes of `ty` is among `set`.
fn type_listed(ty: &ChunkType, set: &[ChunkType]) -> (r: bool)
    ensures
        r == listed(ty.0@, set@),
{
    let mut i: usize = 0;
    while i < set.len()
        invariant
            i <= set.len(),
            forall|k: int| 0 <= k < i ==> (#[trigger] set@[k]).0@ != ty.0@,
        decreases set.len() - i,
    {
        let a = set[i].0;
        let b = ty.0;
        if a[0] == b[0] && a[1] == b[1] && a[2] == b[2] && a[3] == b[3] {
            assert(set@[i as int].0@ =~= ty.0@);
            return true;
        }
        assert(set@[i as int].0@[0] != ty.0@[0] || set@[i as int].0@[1] != ty.0@[1] || set@[i as int].0@[2]
            != ty.0@[2] || set@[i as int].0@[3] != ty.0@[3]);
        i = i + 1;
    }
    false
}

/// The rows of the chunks that are shown, in the order of the chunks: a
/// chunk is shown where its type is among `wanted` (when that is not
/// empty) and not among `exclude`; each row gives the chunk's place among
/// all chunks, counted from 1, and its offset past the header and the
/// chunks before it.
pub fn chunk_rows(chunks: &[ChunkInfo], wanted: &[ChunkType], exclude: &[ChunkType]) -> (r: Vec<ChunkRow>)
    requires
        chunk_offset(chunks@, chunks@.len() as int) <= u64::MAX,
    ensures
        r@ == rows_of(chunks@, wanted@, exclude@, chunks@.len() as int),
{
    let mut rows: Vec<ChunkRow> = Vec::new();
    let mut offset: u64 = ARCHIVE_HEADER_LEN;
    let mut i: usize = 0;
    while i < chunks.len()
        invariant
            i <= chunks.len(),
            offset == chunk_offset(chunks@, i as int),
            chunk_offset(chunks@, chunks@.len() as int) <= u64::MAX,
            rows@ == rows_of(chunks@, wanted@, exclude@, i as int),
        decreases chunks.len() - i,
    {
        proof {
            lemma_offset_grows(chunks@, i + 1, chunks@.len() as int);
        }
        let c = chunks[i];
        let show = (wanted.len() == 0 || type_listed(&c.ty, wanted)) && !type_listed(&c.ty, exclude);
        if show {
            rows.push(ChunkRow { index: (i + 1) as u64, ty: c.ty, length: c.length, offset });
        }
        offset = offset + c.length as u64 + CHUNK_OVERHEAD;
        i = i + 1;
    }
    rows
}

/// The lower-case hexadecimal digit for `d`.
pub open spec fn hex_digit(d: nat) -> char {
    if d < 10 {
        digit_char(d)
    } else {
        (('a' as int) + d - 10) as char
    }
}

/// The lower-case hexadecimal notation of `n`, without leading zeros.
pub open spec fn lower_hex(n: nat) -> Seq<char>
    decreases n,
{
    if n < 16 {
        seq![hex_digit(n)]
    } else {
        lower_hex(n / 16).push(hex_digit(n % 16))
    }
}

/// `s` with zeros in front up to `width` characters.
pub open spec fn zero_filled(s: Seq<char>, width: nat) -> Seq<char> {
    if s.len() >= width {
        s
    } else {
        Seq::new((width - s.len()) as nat, |i: int| '0') + s
    }
}

/// How an offset is written: `0x`, then at least four lower-case hex digits.
pub open spec fn offset_text_of(n: nat) -> Seq<char> {
    "0x"@ + zero_filled(lower_hex(n), 4)
}

/// The two lower-case hex digits of each byte, in order.
pub open spec fn bytes_hex(b: Seq<u8>) -> Seq<char>
    decreases b.len(),
{
    if b.len() == 0 {
        Seq::empty()
    } else {
        bytes_hex(b.drop_last()) + seq![hex_digit((b.last() / 16) as nat), hex_digit((b.last() % 16) as nat)]
    }
}

/// How a chunk's data is written: as text where it is UTF-8, else `0x`
/// and its bytes in hex.
pub open spec fn body_text_of(data: Seq<u8>) -> Seq<char> {
    if vstd::utf8::valid_utf8(data) {
        vstd::utf8::decode_utf8(data)
    } else {
        "0x"@ + bytes_hex(data)
    }
}

fn hex_char(d: u64) -> (c: char)
    requires
        d < 16,
    ensures
        c == hex_digit(d as nat),
{
    if d == 0 { '0' } else if d == 1 { '1' } else if d == 2 { '2' } else if d == 3 { '3' }
    else if d == 4 { '4' } else if d == 5 { '5' } else if d == 6 { '6' } else if d == 7 { '7' }
    else if d == 8 { '8' } else if d == 9 { '9' } else if d == 10 { 'a' } else if d == 11 { 'b' }
    else if d == 12 { 'c' } else if d == 13 { 'd' } else if d == 14 { 'e' } else { 'f' }
}

fn hex_chars(n: u64) -> (r: Vec<char>)
    ensures
        r@ == lower_hex(n as nat),
    decreases n,
{
    if n < 16 {
        let mut v: Vec<char> = Vec::new();
        v.push(hex_char(n));
        assert(v@ =~= lower_hex(n as nat));
        v
    } else {
        let mut v = hex_chars(n / 16);
        v.push(hex_char(n % 16));
        v
    }
}

/// The offset as the listing writes it, `offset_text_of` says how.
pub fn offset_text(offset: u64) -> (r: String)
    ensures
        r@ == offset_text_of(offset as nat),
{
    let digits = hex_chars(offset);
    let mut out: Vec<char> = Vec::new();
    out.push('0');
    out.push('x');
    let mut k: usize = digits.len();
    while k < 4
        invariant
            digits.len() <= k <= 4 || (k == digits.len() && k >= 4),
            out@ == seq!['0', 'x'] + Seq::new((k - digits.len()) as nat, |i: int| '0'),
        decreases 4 - k,
    {
        out.push('0');
        assert(out@ =~= seq!['0', 'x'] + Seq::new((k + 1 - digits.len()) as nat, |i: int| '0'));
        k = k + 1;
    }
    let ghost pad = out@;
    let mut j: usize = 0;
    while j < digits.len()
        invariant
            j <= digits.len(),
            out@ == pad + digits@.take(j as int),
        decreases digits.len() - j,
    {
        out.push(digits[j]);
        assert(out@ =~= pad + digits@.take(j + 1));
        j = j + 1;
    }
    proof {
        reveal_strlit("0x");
        assert(digits@.take(digits.len() as int) =~= digits@);
        if digits.len() >= 4 {
            assert(Seq::new(0nat, |i: int| '0') =~= Seq::<char>::empty());
        }
        assert(out@ =~= offset_text_of(offset as nat));
    }
    crate::text::string_from_chars(out.as_slice())
}

/// A chunk's data as the long listing writes it, `body_text_of` says how.
pub fn body_text(data: &[u8]) -> (r: String)
    ensures
        r@ == body_text_of(data@),
{
    match str_from_utf8(data) {
        Ok(s) => {
            proof {
                vstd::utf8::encode_utf8_decode_utf8(s@);
            }
            s.to_owned()
        },
        Err(_) => {
            let mut out: Vec<char> = Vec::new();
            out.push('0');
            out.push('x');
            let mut i: usize = 0;
            while i < data.len()
                invariant
                    i <= data.len(),
                    out@ == seq!['0', 'x'] + bytes_hex(data@.take(i as int)),
                decreases data.len() - i,
            {
                let b = data[i];
                out.push(hex_char((b / 16) as u64));
                out.push(hex_char((b % 16) as u64));
                assert(data@.take(i + 1).drop_last() =~= data@.take(i as int));
                assert(out@ =~= seq!['0', 'x'] + bytes_hex(data@.take(i + 1)));
                i = i + 1;
            }
            proof {
                reveal_strlit("0x");
                assert(data@.take(data.len() as int) =~= data@);
            }
            crate::text::string_from_chars(out.as_slice())
        },
    }
}

/// The names of the listing's columns, with `Body` for the long listing.
pub fn column_names(long: bool) -> (r: Vec<String>)
    ensures
        r@.len() == if long { 5int } else { 4int },
        r@[0]@ == "Index"@,
        r@[1]@ == "Type"@,
        r@[2]@ == "Size"@,
        r@[3]@ == "Offset"@,
        long ==> r@[4]@ == "Body"@,
{
    let mut v: Vec<String> = Vec::new();
    v.push(String::from_str("Index"));
    v.push(String::from_str("Type"));
    v.push(String::from_str("Size"));
    v.push(String::from_str("Offset"));
    if long {
        v.push(String::from_str("Body"));
    }
    v
}

} // verus!
