use vstd::prelude::*;

verus! {

/// Bytes of one cell record: four 4-byte words.
pub const RECORD_BYTES: usize = 16;

/// One cell as it travels between host and device: a state tag and the
/// cell's three coordinates.
#[derive(Clone, Copy, Debug, PartialEq, Eq, Structural)]
pub struct Cell {
    pub alive: bool,
    pub x: u32,
    pub y: u32,
    pub z: u32,
}

/// Why bytes could not be read as cell records.
#[derive(Clone, Copy, Debug, PartialEq, Eq, Structural)]
pub enum DecodeError {
    /// The byte count is not a whole number of records.
    Truncated,
    /// The record at `index` has a state tag other than 0 (dead) or 1 (alive).
    BadState { index: usize },
}

/// The four bytes of `v`, least significant first.
pub open spec fn word_bytes(v: u32) -> Seq<u8> {
    seq![(v & 0xff) as u8, ((v >> 8) & 0xff) as u8, ((v >> 16) & 0xff) as u8, (v >> 24) as u8]
}

/// The word whose bytes, least significant first, are `b0 .. b3`.
pub open spec fn word_of(b0: u8, b1: u8, b2: u8, b3: u8) -> u32 {
    (b0 as u32) | ((b1 as u32) << 8) | ((b2 as u32) << 16) | ((b3 as u32) << 24)
}

/// The word stored at byte offset `k` of `b`.
pub open spec fn word_at(b: Seq<u8>, k: int) -> u32 {
    word_of(b[k], b[k + 1], b[k + 2], b[k + 3])
}

/// The state tag of a cell: 1 when alive, 0 when dead.
pub open spec fn state_word(alive: bool) -> u32 {
    if alive { 1 } else { 0 }
}

/// The wire record of `c`: state tag, x, y, z.
pub open spec fn record_bytes(c: Cell) -> Seq<u8> {
    word_bytes(state_word(c.alive)) + word_bytes(c.x) + word_bytes(c.y) + word_bytes(c.z)
}

/// True when record number `i` of `b` holds a valid state tag.
pub open spec fn tag_ok(b: Seq<u8>, i: int) -> bool {
    word_at(b, 16 * i) <= 1
}

/// The cell that record number `i` of `b` describes, whatever its tag;
/// meaningful when [`tag_ok`] holds.
pub open spec fn cell_at(b: Seq<u8>, i: int) -> Cell {
    Cell {
        alive: word_at(b, 16 * i) == 1,
        x: word_at(b, 16 * i + 4),
        y: word_at(b, 16 * i + 8),
        z: word_at(b, 16 * i + 12),
    }
}

/// The cell that a 16-byte record describes, if its tag is valid.
pub open spec fn record_of(b: Seq<u8>) -> Option<Cell> {
    if b.len() == RECORD_BYTES && tag_ok(b, 0) {
        Some(cell_at(b, 0))
    } else {
        None
    }
}

/// The wire form of a sequence of cells: their records one after another.
pub open spec fn records_bytes(cs: Seq<Cell>) -> Seq<u8>
    decreases cs.len(),
{
    if cs.len() == 0 {
        Seq::empty()
    } else {
        records_bytes(cs.drop_last()) + record_bytes(cs.last())
    }
}

proof fn lemma_word_round_trip(v: u32)
    ensures
        word_of((v & 0xff) as u8, ((v >> 8) & 0xff) as u8, ((v >> 16) & 0xff) as u8, (v >> 24) as u8) == v,
{
    assert(((v & 0xff) as u8 as u32) | ((((v >> 8) & 0xff) as u8 as u32) << 8)
        | ((((v >> 16) & 0xff) as u8 as u32) << 16) | (((v >> 24) as u8 as u32) << 24) == v) by (bit_vector);
}

/// Writing a cell as a record and reading the record back gives the same cell.
pub proof fn lemma_record_round_trip(c: Cell)
    ensures
        record_of(record_bytes(c)) == Some(c),
{
    lemma_word_round_trip(state_word(c.alive));
    lemma_word_round_trip(c.x);
    lemma_word_round_trip(c.y);
    lemma_word_round_trip(c.z);
    let b = record_bytes(c);
    assert(word_at(b, 0) == state_word(c.alive));
    assert(word_at(b, 4) == c.x);
    assert(word_at(b, 8) == c.y);
    assert(word_at(b, 12) == c.z);
}

/// Appends the four bytes of `v`, least significant first.
fn push_word(out: &mut Vec<u8>, v: u32)
    ensures
        final(out)@ == old(out)@ + word_bytes(v),
{
    out.push((v & 0xff) as u8);
    out.push(((v >> 8) & 0xff) as u8);
    out.push(((v >> 16) & 0xff) as u8);
    out.push((v >> 24) as u8);
    assert(final(out)@ =~= old(out)@ + word_bytes(v));
}

/// Reads the word at byte offset `k`.
fn read_word(b: &[u8], k: usize) -> (r: u32)
    requires
        k + 4 <= b@.len(),
    ensures
        r == word_at(b@, k as int),
{
    (b[k] as u32) | ((b[k + 1] as u32) << 8) | ((b[k + 2] as u32) << 16) | ((b[k + 3] as u32) << 24)
}

impl Cell {
    /// Appends the record of this cell to `out`.
    pub fn encode_into(&self, out: &mut Vec<u8>)
        ensures
            final(out)@ == old(out)@ + record_bytes(*self),
    {
        push_word(out, if self.alive { 1 } else { 0 });
        push_word(out, self.x);
        push_word(out, self.y);
        push_word(out, self.z);
        assert(final(out)@ =~= old(out)@ + record_bytes(*self));
    }

    /// The 16-byte record of this cell.
    pub fn encode(&self) -> (r: Vec<u8>)
        ensures
            r@ == record_bytes(*self),
    {
        let mut out: Vec<u8> = Vec::new();
        self.encode_into(&mut out);
        assert(out@ =~= record_bytes(*self));
        out
    }

    /// Reads record number `i` of `b`, or `None` when its state tag is
    /// neither 0 nor 1.
    fn decode_at(b: &[u8], i: usize) -> (r: Option<Cell>)
        requires
            16 * i + RECORD_BYTES <= b@.len(),
        ensures
            r is Some <==> tag_ok(b@, i as int),
            r matches Some(c) ==> c == cell_at(b@, i as int),
    {
        let _len = b.len();  // bounds the offsets read below
        let k = i * RECORD_BYTES;
        let tag = read_word(b, k);
        if tag > 1 {
            None
        } else {
            Some(Cell { alive: tag == 1, x: read_word(b, k + 4), y: read_word(b, k + 8), z: read_word(b, k + 12) })
        }
    }

    /// Reads one 16-byte record: `None` when `b` is not 16 bytes long or its
    /// state tag is neither 0 nor 1.
    pub fn decode(b: &[u8]) -> (r: Option<Cell>)
        ensures
            r == record_of(b@),
    {
        if b.len() != RECORD_BYTES {
            None
        } else {
            Self::decode_at(b, 0)
        }
    }
}

/// The wire form of `cells`: their records in order.
pub fn encode_records(cells: &Vec<Cell>) -> (r: Vec<u8>)
    ensures
        r@ == records_bytes(cells@),
{
    let mut out: Vec<u8> = Vec::new();
    let mut i: usize = 0;
    while i < cells.len()
        invariant
            0 <= i <= cells@.len(),
            out@ == records_bytes(cells@.take(i as int)),
        decreases cells@.len() - i,
    {
        assert(cells@.take(i as int + 1).drop_last() =~= cells@.take(i as int));
        cells[i].encode_into(&mut out);
        i += 1;
    }
    assert(cells@.take(i as int) =~= cells@);
    out
}

/// Reads a whole buffer of records. Fails when the length is not a multiple
/// of 16, or at the first record whose state tag is neither 0 nor 1.
pub fn decode_records(b: &[u8]) -> (r: Result<Vec<Cell>, DecodeError>)
    ensures
        b@.len() % 16 != 0 <==> r == Err::<Vec<Cell>, DecodeError>(DecodeError::Truncated),
        r is Ok <==> b@.len() % 16 == 0 && forall|i: int| 0 <= i < b@.len() / 16 ==> #[trigger] tag_ok(b@, i),
        r matches Ok(cs) ==> cs@.len() == b@.len() / 16
            && forall|i: int| 0 <= i < cs@.len() ==> cs@[i] == cell_at(b@, i),
        r matches Err(DecodeError::BadState { index }) ==> b@.len() % 16 == 0 && index < b@.len() / 16
            && !tag_ok(b@, index as int) && forall|j: int| 0 <= j < index ==> #[trigger] tag_ok(b@, j),
{
    let len = b.len();
    if len % RECORD_BYTES != 0 {
        return Err(DecodeError::Truncated);
    }
    let n = len / RECORD_BYTES;
    let mut cells: Vec<Cell> = Vec::new();
    let mut i: usize = 0;
    while i < n
        invariant
            len == b@.len(),
            len % 16 == 0,
            n == len / 16,
            0 <= i <= n,
            cells@.len() == i,
            forall|j: int| 0 <= j < i ==> #[trigger] tag_ok(b@, j),
            forall|j: int| 0 <= j < i ==> cells@[j] == cell_at(b@, j),
        decreases n - i,
    {
        match Cell::decode_at(b, i) {
            Some(c) => cells.push(c),
            None => return Err(DecodeError::BadState { index: i }),
        }
        i += 1;
    }
    Ok(cells)
}

} // verus!
