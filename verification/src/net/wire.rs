//! Length-prefixed framing.
//!
//! Every handshake message and every record is sent as a 32-bit big-endian length
//! and that many bytes. A per-frame cap bounds how much a peer can make the
//! receiver allocate, and the cap is split so that an unauthenticated handshake or
//! control frame is held to a far tighter limit than a bulk data record.

use vstd::prelude::*;

verus! {

/// Largest data frame that is read: 16 MiB.
pub const MAX_FRAME: usize = 16_777_216;

/// Largest handshake or control frame that is read: 64 KiB.
pub const MAX_HANDSHAKE_FRAME: usize = 65_536;

/// The kind of a framing error.
#[derive(Clone, Copy, Debug, PartialEq, Eq, Structural)]
pub enum ErrorKind {
    /// The frame to send has no 32-bit length.
    InvalidInput,
    /// The declared length is over the reader's cap.
    InvalidData,
    /// The input ended inside a frame.
    UnexpectedEof,
}

/// Why a frame could not be written or read.
#[derive(Clone, Copy, Debug, PartialEq, Eq, Structural)]
pub struct FrameError {
    pub kind: ErrorKind,
}

impl FrameError {
    /// The kind of the error.
    pub fn kind(&self) -> (k: ErrorKind)
        ensures
            k == self.kind,
    {
        self.kind
    }

    /// The error in words.
    pub fn message(&self) -> (m: &'static str)
        ensures
            m@ == (match self.kind {
                ErrorKind::InvalidInput => "frame too large to send"@,
                ErrorKind::InvalidData => "frame exceeds the maximum allowed size"@,
                ErrorKind::UnexpectedEof => "failed to fill whole buffer"@,
            }),
    {
        match self.kind {
            ErrorKind::InvalidInput => "frame too large to send",
            ErrorKind::InvalidData => "frame exceeds the maximum allowed size",
            ErrorKind::UnexpectedEof => "failed to fill whole buffer",
        }
    }
}

/// The big-endian form of a 32-bit number.
pub open spec fn be_bytes(n: u32) -> Seq<u8> {
    seq![
        (n / 0x100_0000) as u8,
        (n / 0x1_0000 % 0x100) as u8,
        (n / 0x100 % 0x100) as u8,
        (n % 0x100) as u8,
    ]
}

/// The number that four bytes write in big-endian order.
pub open spec fn be_value(b: Seq<u8>) -> int {
    b[0] * 0x100_0000 + b[1] * 0x1_0000 + b[2] * 0x100 + b[3]
}

/// The big-endian form of a 32-bit number.
pub fn to_be(n: u32) -> (r: [u8; 4])
    ensures
        r@ == be_bytes(n),
{
    let r = [
        (n / 0x100_0000) as u8,
        (n / 0x1_0000 % 0x100) as u8,
        (n / 0x100 % 0x100) as u8,
        (n % 0x100) as u8,
    ];
    assert(r@ =~= be_bytes(n));
    r
}

/// The number that four bytes write in big-endian order.
pub fn from_be(b: &[u8; 4]) -> (n: u32)
    ensures
        n == be_value(b@),
{
    b[0] as u32 * 0x100_0000 + b[1] as u32 * 0x1_0000 + b[2] as u32 * 0x100 + b[3] as u32
}

/// The frame that carries `data`.
pub open spec fn frame(data: Seq<u8>) -> Seq<u8> {
    be_bytes(data.len() as u32) + data
}

/// What reading one frame of at most `max` bytes from `input` gives: the data, or
/// the error, and how many bytes of the input were taken.
pub open spec fn read_of(input: Seq<u8>, max: usize) -> (Result<Seq<u8>, ErrorKind>, int) {
    if input.len() < 4 {
        (Err(ErrorKind::UnexpectedEof), input.len() as int)
    } else if be_value(input) > max {
        (Err(ErrorKind::InvalidData), 4)
    } else if input.len() - 4 < be_value(input) {
        (Err(ErrorKind::UnexpectedEof), input.len() as int)
    } else {
        (Ok(input.subrange(4, 4 + be_value(input))), 4 + be_value(input))
    }
}

/// The length prefix of a frame that carries `len` bytes.
pub fn frame_header(len: usize) -> (r: Result<[u8; 4], FrameError>)
    ensures
        match r {
            Ok(h) => len <= u32::MAX && h@ == be_bytes(len as u32),
            Err(e) => len > u32::MAX && e.kind == ErrorKind::InvalidInput,
        },
{
    if len as u64 > 0xffff_ffff {
        return Err(FrameError { kind: ErrorKind::InvalidInput });
    }
    Ok(to_be(len as u32))
}

/// The length that a frame's prefix declares, if it is at most `max`. Nothing is
/// read or allocated for a longer one.
pub fn frame_length(header: &[u8; 4], max: usize) -> (r: Result<usize, FrameError>)
    ensures
        match r {
            Ok(n) => n == be_value(header@) && n <= max,
            Err(e) => be_value(header@) > max && e.kind == ErrorKind::InvalidData,
        },
{
    let n: u32 = from_be(header);
    if n as u64 > max as u64 {
        Err(FrameError { kind: ErrorKind::InvalidData })
    } else {
        Ok(n as usize)
    }
}

/// What to do about a buffer that is being filled from a peer.
#[derive(Clone, Copy, Debug, PartialEq, Eq, Structural)]
pub enum ReadNext {
    /// Read once more.
    Read,
    /// It is full.
    Done,
    Cancelled,
    TooLate,
}

/// What to do when `got` of `len` bytes are there. A full buffer is done whatever the
/// clock says; before each further read the user and the clock are asked.
pub open spec fn read_next(
    got: nat,
    len: nat,
    cancelled: bool,
    now: u64,
    deadline: u64,
) -> ReadNext {
    if got >= len {
        ReadNext::Done
    } else if cancelled {
        ReadNext::Cancelled
    } else if now >= deadline {
        ReadNext::TooLate
    } else {
        ReadNext::Read
    }
}

/// What to do when `got` of `len` bytes are there.
pub fn read_step(got: usize, len: usize, cancelled: bool, now: u64, deadline: u64) -> (r: ReadNext)
    ensures
        r == read_next(got as nat, len as nat, cancelled, now, deadline),
{
    if got >= len {
        ReadNext::Done
    } else if cancelled {
        ReadNext::Cancelled
    } else if now >= deadline {
        ReadNext::TooLate
    } else {
        ReadNext::Read
    }
}

/// Bytes to be read front to back.
pub struct ByteReader {
    bytes: Vec<u8>,
    pos: usize,
}

impl ByteReader {
    #[verifier::type_invariant]
    spec fn inv(self) -> bool {
        self.pos <= self.bytes@.len()
    }

    /// The bytes not yet read.
    pub closed spec fn rest(self) -> Seq<u8> {
        self.bytes@.skip(self.pos as int)
    }

    /// A reader at the start of `bytes`.
    pub fn new(bytes: Vec<u8>) -> (r: Self)
        ensures
            r.rest() == bytes@,
    {
        let r = ByteReader { bytes, pos: 0 };
        assert(r.rest() =~= bytes@);
        r
    }

    /// How many bytes are left.
    pub fn remaining(&self) -> (n: usize)
        ensures
            n == self.rest().len(),
    {
        proof {
            use_type_invariant(self);
        }
        self.bytes.len() - self.pos
    }

    /// Takes the next `n` bytes; takes all there is and fails if fewer are left.
    pub fn take(&mut self, n: usize) -> (r: Result<Vec<u8>, FrameError>)
        ensures
            match r {
                Ok(v) => n <= old(self).rest().len() && v@ == old(self).rest().take(n as int)
                    && final(self).rest() == old(self).rest().skip(n as int),
                Err(e) => n > old(self).rest().len() && e.kind == ErrorKind::UnexpectedEof
                    && final(self).rest().len() == 0,
            },
    {
        proof {
            use_type_invariant(&*self);
        }
        let left: usize = self.bytes.len() - self.pos;
        if n > left {
            self.pos = self.bytes.len();
            return Err(FrameError { kind: ErrorKind::UnexpectedEof });
        }
        let ghost before = self.rest();
        let start: usize = self.pos;
        let end: usize = start + n;
        let mut out: Vec<u8> = Vec::new();
        let mut i: usize = 0;
        while i < n
            invariant
                i <= n,
                end == start + n,
                end <= self.bytes@.len(),
                self.pos == start,
                before == self.bytes@.skip(start as int),
                out@ == before.take(i as int),
            decreases n - i,
        {
            out.push(self.bytes[start + i]);
            i += 1;
        }
        self.pos = end;
        assert(self.rest() =~= before.skip(n as int));
        Ok(out)
    }
}

/// Writes one length-prefixed frame at the end of `w`.
pub fn write_frame(w: &mut Vec<u8>, data: &[u8]) -> (r: Result<(), FrameError>)
    ensures
        match r {
            Ok(()) => data@.len() <= u32::MAX && final(w)@ == old(w)@ + frame(data@),
            Err(e) => data@.len() > u32::MAX && e.kind == ErrorKind::InvalidInput && final(w)@
                == old(w)@,
        },
{
    match frame_header(data.len()) {
        Ok(h) => {
            let ghost before = w@;
            w.push(h[0]);
            w.push(h[1]);
            w.push(h[2]);
            w.push(h[3]);
            assert(w@ =~= before + be_bytes(data@.len() as u32));
            w.extend_from_slice(data);
            assert(w@ =~= before + frame(data@));
            Ok(())
        },
        Err(e) => Err(e),
    }
}

/// Reads one length-prefixed frame, rejecting anything larger than `max` before
/// reading or allocating the body.
pub fn read_frame_bounded(r: &mut ByteReader, max: usize) -> (res: Result<Vec<u8>, FrameError>)
    ensures
        match res {
            Ok(v) => read_of(old(r).rest(), max).0 == Ok::<Seq<u8>, ErrorKind>(v@),
            Err(e) => read_of(old(r).rest(), max).0 == Err::<Seq<u8>, ErrorKind>(e.kind),
        },
        final(r).rest() == old(r).rest().skip(read_of(old(r).rest(), max).1),
{
    let ghost input = r.rest();
    let head = match r.take(4) {
        Ok(h) => h,
        Err(e) => {
            assert(r.rest() =~= input.skip(input.len() as int));
            return Err(e);
        },
    };
    let header = [head[0], head[1], head[2], head[3]];
    assert(be_value(header@) == be_value(input));
    match frame_length(&header, max) {
        Ok(len) => match r.take(len) {
            Ok(v) => {
                assert(v@ =~= input.subrange(4, 4 + len));
                assert(r.rest() =~= input.skip(4 + len));
                Ok(v)
            },
            Err(e) => {
                assert(r.rest() =~= input.skip(input.len() as int));
                Err(e)
            },
        },
        Err(e) => Err(e),
    }
}

/// Reads one bulk data frame, rejecting anything larger than [`MAX_FRAME`].
pub fn read_frame(r: &mut ByteReader) -> (res: Result<Vec<u8>, FrameError>)
    ensures
        match res {
            Ok(v) => read_of(old(r).rest(), MAX_FRAME).0 == Ok::<Seq<u8>, ErrorKind>(v@),
            Err(e) => read_of(old(r).rest(), MAX_FRAME).0 == Err::<Seq<u8>, ErrorKind>(e.kind),
        },
        final(r).rest() == old(r).rest().skip(read_of(old(r).rest(), MAX_FRAME).1),
{
    read_frame_bounded(r, MAX_FRAME)
}

/// Reads one handshake or control frame, rejecting anything larger than
/// [`MAX_HANDSHAKE_FRAME`].
pub fn read_handshake_frame(r: &mut ByteReader) -> (res: Result<Vec<u8>, FrameError>)
    ensures
        match res {
            Ok(v) => read_of(old(r).rest(), MAX_HANDSHAKE_FRAME).0 == Ok::<Seq<u8>, ErrorKind>(v@),
            Err(e) => read_of(old(r).rest(), MAX_HANDSHAKE_FRAME).0 == Err::<Seq<u8>, ErrorKind>(
                e.kind,
            ),
        },
        final(r).rest() == old(r).rest().skip(read_of(old(r).rest(), MAX_HANDSHAKE_FRAME).1),
{
    read_frame_bounded(r, MAX_HANDSHAKE_FRAME)
}

// ---------------------------------------------------------------------------
// Laws
// ---------------------------------------------------------------------------

/// The big-endian form of a number reads back as that number.
pub proof fn lemma_be_round_trip(n: u32)
    ensures
        be_bytes(n).len() == 4,
        be_value(be_bytes(n)) == n,
{
    let a = n / 0x100_0000;
    let b = n / 0x1_0000 % 0x100;
    let c = n / 0x100 % 0x100;
    let d = n % 0x100;
    assert(a < 0x100 && a * 0x100_0000 + b * 0x1_0000 + c * 0x100 + d == n) by (nonlinear_arith)
        requires
            a == n / 0x100_0000,
            b == n / 0x1_0000 % 0x100,
            c == n / 0x100 % 0x100,
            d == n % 0x100,
            0 <= n <= 0xffff_ffff,
    ;
}

/// Four bytes are the big-endian form of the number that they write.
pub proof fn lemma_be_bytes_read_back(b: Seq<u8>)
    requires
        b.len() == 4,
    ensures
        0 <= be_value(b) <= u32::MAX,
        be_bytes(be_value(b) as u32) == b,
{
    let (w, x, y, z) = (b[0] as int, b[1] as int, b[2] as int, b[3] as int);
    let n = be_value(b);
    assert(n / 0x100 == w * 0x1_0000 + x * 0x100 + y && n % 0x100 == z);
    assert(n / 0x1_0000 == w * 0x100 + x && n / 0x100 % 0x100 == y);
    assert(n / 0x100_0000 == w && n / 0x1_0000 % 0x100 == x);
    assert(be_bytes(n as u32) =~= b);
}

/// What was written is read back, whatever follows it, by every reader whose cap
/// admits it; the following bytes are left unread.
pub proof fn law_written_frame_reads_back(data: Seq<u8>, after: Seq<u8>, max: usize)
    requires
        data.len() <= u32::MAX,
        data.len() <= max,
    ensures
        read_of(frame(data) + after, max) == (Ok::<Seq<u8>, ErrorKind>(data), 4int + data.len()),
        (frame(data) + after).skip(4int + data.len()) == after,
{
    lemma_be_round_trip(data.len() as u32);
    let input = frame(data) + after;
    assert(input.take(4) =~= be_bytes(data.len() as u32));
    assert(input[0] == be_bytes(data.len() as u32)[0]);
    assert(input[1] == be_bytes(data.len() as u32)[1]);
    assert(input[2] == be_bytes(data.len() as u32)[2]);
    assert(input[3] == be_bytes(data.len() as u32)[3]);
    assert(input.subrange(4, 4int + data.len()) =~= data);
    assert(input.skip(4int + data.len()) =~= after);
}

/// A frame over the cap is refused on its four length bytes alone, whether or not
/// a body follows.
pub proof fn law_oversized_frame_is_refused_before_its_body(input: Seq<u8>, max: usize)
    requires
        input.len() >= 4,
        be_value(input) > max,
    ensures
        read_of(input, max) == (Err::<Seq<u8>, ErrorKind>(ErrorKind::InvalidData), 4int),
{
}

/// The handshake cap is below the data cap: a frame between the two is readable as
/// a data record and refused as a handshake frame.
pub proof fn law_frame_between_the_caps_is_data_only(data: Seq<u8>)
    requires
        MAX_HANDSHAKE_FRAME < data.len() <= MAX_FRAME,
    ensures
        read_of(frame(data), MAX_FRAME).0 == Ok::<Seq<u8>, ErrorKind>(data),
        read_of(frame(data), MAX_HANDSHAKE_FRAME) == (
            Err::<Seq<u8>, ErrorKind>(ErrorKind::InvalidData),
            4int,
        ),
{
    assert(frame(data) + Seq::<u8>::empty() =~= frame(data));
    law_written_frame_reads_back(data, Seq::empty(), MAX_FRAME);
    lemma_be_round_trip(data.len() as u32);
    assert(frame(data)[0] == be_bytes(data.len() as u32)[0]);
    assert(frame(data)[1] == be_bytes(data.len() as u32)[1]);
    assert(frame(data)[2] == be_bytes(data.len() as u32)[2]);
    assert(frame(data)[3] == be_bytes(data.len() as u32)[3]);
}

/// What one turn of filling a buffer saw: the clock and the user before it, and how many
/// bytes it brought.
pub struct ReadTurn {
    pub now: u64,
    pub cancelled: bool,
    pub brought: nat,
}

/// How many bytes are there before the `k`-th turn.
pub open spec fn got_before(turns: Seq<ReadTurn>, k: int) -> nat
    decreases k,
{
    if k <= 0 {
        0
    } else {
        got_before(turns, k - 1) + turns[k - 1].brought
    }
}

/// Whether the turns were all asked for, with one deadline for the whole buffer.
pub open spec fn turns_asked(turns: Seq<ReadTurn>, len: nat, deadline: u64) -> bool {
    forall|k: int|
        0 <= k < turns.len() ==> read_next(
            got_before(turns, k),
            len,
            (#[trigger] turns[k]).cancelled,
            turns[k].now,
            deadline,
        ) == ReadNext::Read
}

/// The deadline is hard: however a peer dribbles its bytes, no read is asked for at or
/// after the deadline, none once the user cancelled, and none for a full buffer.
pub proof fn law_no_read_after_the_deadline(
    turns: Seq<ReadTurn>,
    len: nat,
    deadline: u64,
    k: int,
)
    requires
        turns_asked(turns, len, deadline),
        0 <= k < turns.len(),
    ensures
        turns[k].now < deadline,
        !turns[k].cancelled,
        got_before(turns, k) < len,
{
}

/// A buffer that is not full by the deadline is given up, whatever came before.
pub proof fn law_slow_peers_are_dropped(got: nat, len: nat, cancelled: bool, now: u64, deadline: u64)
    requires
        got < len,
        now >= deadline,
    ensures
        read_next(got, len, cancelled, now, deadline) == (if cancelled {
            ReadNext::Cancelled
        } else {
            ReadNext::TooLate
        }),
{
}

/// A frame's prefix is its length, highest byte first, and is read as that length wherever
/// the cap admits it.
pub proof fn law_a_prefix_is_the_length(
    len: usize,
    max: usize,
    h: Result<[u8; 4], FrameError>,
    r: Result<usize, FrameError>,
)
    requires
        call_ensures(frame_header, (len,), h),
        h is Ok ==> call_ensures(frame_length, (&h->Ok_0, max), r),
    ensures
        h is Ok <==> len <= 0xffff_ffff,
        h is Ok ==> h->Ok_0@[0] * 0x100_0000 + h->Ok_0@[1] * 0x1_0000 + h->Ok_0@[2] * 0x100
            + h->Ok_0@[3] == len,
        h is Ok && len <= max ==> r is Ok && r->Ok_0 == len,
        h is Ok && len > max ==> r is Err && r->Err_0.kind == ErrorKind::InvalidData,
{
    if h is Ok {
        lemma_be_round_trip(len as u32);
    }
}

/// A buffer is read on exactly while it is not full, the user has not cancelled and there is
/// time; one that is full is done, even if it is late.
pub proof fn law_reading_stops_where_it_should(
    got: usize,
    len: usize,
    cancelled: bool,
    now: u64,
    deadline: u64,
    r: ReadNext,
)
    requires
        call_ensures(read_step, (got, len, cancelled, now, deadline), r),
    ensures
        r == ReadNext::Done <==> got >= len,
        r == ReadNext::Read <==> got < len && !cancelled && now < deadline,
        r == ReadNext::Cancelled <==> got < len && cancelled,
{
}

/// Input that ends within a frame gives no data, and nothing of it is left.
pub proof fn law_a_cut_frame_gives_nothing(data: Seq<u8>, cut: int, max: usize)
    requires
        data.len() <= u32::MAX,
        data.len() <= max,
        0 <= cut < data.len() + 4,
    ensures
        read_of(frame(data).take(cut), max) == (
            Err::<Seq<u8>, ErrorKind>(ErrorKind::UnexpectedEof),
            cut,
        ),
{
    lemma_be_round_trip(data.len() as u32);
    let input = frame(data).take(cut);
    if cut >= 4 {
        assert(input[0] == be_bytes(data.len() as u32)[0]);
        assert(input[1] == be_bytes(data.len() as u32)[1]);
        assert(input[2] == be_bytes(data.len() as u32)[2]);
        assert(input[3] == be_bytes(data.len() as u32)[3]);
    }
}

} // verus!
