use vstd::prelude::*;
use crate::error::ReaderError;

verus! {

/// Generator polynomial of the CRC.
pub const CRC_POLY: u16 = 0x1021;

/// One bit-serial CRC step: the register's top bit is compared with the top
/// bit of `b`, the register is shifted left, and the polynomial is XORed in
/// when the two bits differed.
pub open spec fn crc_step(crc: u16, b: u8) -> u16 {
    if (crc >> 15u16) != ((b >> 7u8) as u16) {
        ((crc << 1u16) ^ CRC_POLY) as u16
    } else {
        (crc << 1u16) as u16
    }
}

/// Feeds the top `n` bits of `b` into the register, most significant first.
pub open spec fn crc_bits(crc: u16, b: u8, n: nat) -> u16
    decreases n,
{
    if n == 0 {
        crc
    } else {
        crc_bits(crc_step(crc, b), (b << 1u8) as u8, (n - 1) as nat)
    }
}

/// The register after feeding every byte of `s`, starting from `crc`.
pub open spec fn crc_update(crc: u16, s: Seq<u8>) -> u16
    decreases s.len(),
{
    if s.len() == 0 {
        crc
    } else {
        crc_bits(crc_update(crc, s.drop_last()), s.last(), 8)
    }
}

/// CRC-16 with polynomial 0x1021, register preset to 0xFFFF and the result
/// XORed with 0xFFFF.
pub open spec fn checksum_spec(s: Seq<u8>) -> u16 {
    crc_update(0xffff, s) ^ 0xffffu16
}

/// Computes the 16-bit checksum of `bytes`.
pub fn checksum(bytes: &[u8]) -> (r: u16)
    ensures
        r == checksum_spec(bytes@),
{
    let mut crc: u16 = 0xffff;
    let mut i: usize = 0;
    while i < bytes.len()
        invariant
            i <= bytes.len(),
            crc == crc_update(0xffff, bytes@.subrange(0, i as int)),
        decreases bytes.len() - i,
    {
        let ghost before = crc;
        let mut current_byte: u8 = bytes[i];
        let mut k: usize = 0;
        while k < 8
            invariant
                k <= 8,
                crc_bits(crc, current_byte, (8 - k) as nat) == crc_bits(before, bytes@[i as int], 8),
            decreases 8 - k,
        {
            if (crc >> 15u16) != ((current_byte >> 7u8) as u16) {
                crc = (crc << 1u16) ^ CRC_POLY;
            } else {
                crc = crc << 1u16;
            }
            current_byte = current_byte << 1u8;
            k = k + 1;
        }
        assert(bytes@.subrange(0, i + 1).drop_last() =~= bytes@.subrange(0, i as int));
        i = i + 1;
    }
    assert(bytes@.subrange(0, bytes.len() as int) =~= bytes@);
    crc ^ 0xffff
}


/// `crc_bits` over a whole byte, as eight explicit steps.
proof fn lemma_crc_byte_steps(crc: u16, b: u8)
    ensures
        crc_bits(crc, b, 8) == crc_step(crc_step(crc_step(crc_step(crc_step(crc_step(crc_step(crc_step(crc, b), ((b << 1u8) as u8)), ((((b << 1u8) as u8) << 1u8) as u8)), ((((((b << 1u8) as u8) << 1u8) as u8) << 1u8) as u8)), ((((((((b << 1u8) as u8) << 1u8) as u8) << 1u8) as u8) << 1u8) as u8)), ((((((((((b << 1u8) as u8) << 1u8) as u8) << 1u8) as u8) << 1u8) as u8) << 1u8) as u8)), ((((((((((((b << 1u8) as u8) << 1u8) as u8) << 1u8) as u8) << 1u8) as u8) << 1u8) as u8) << 1u8) as u8)), ((((((((((((((b << 1u8) as u8) << 1u8) as u8) << 1u8) as u8) << 1u8) as u8) << 1u8) as u8) << 1u8) as u8) << 1u8) as u8)),
{
    reveal_with_fuel(crc_bits, 9);
}

proof fn lemma_residue_bits(r: u16, hb: u8, lb: u8, r1: u16, hb1: u8, r2: u16, hb2: u8, r3: u16, hb3: u8, r4: u16, hb4: u8, r5: u16, hb5: u8, r6: u16, hb6: u8, r7: u16, hb7: u8, r8: u16, r9: u16, lb1: u8, r10: u16, lb2: u8, r11: u16, lb3: u8, r12: u16, lb4: u8, r13: u16, lb5: u8, r14: u16, lb6: u8, r15: u16, lb7: u8, r16: u16)
    by (bit_vector)
    requires
        hb == ((r ^ 0xffffu16) / 256) as u8,
        lb == ((r ^ 0xffffu16) % 256) as u8,
        r1 == crc_step(r, hb),
        hb1 == (hb << 1u8) as u8,
        r2 == crc_step(r1, hb1),
        hb2 == (hb1 << 1u8) as u8,
        r3 == crc_step(r2, hb2),
        hb3 == (hb2 << 1u8) as u8,
        r4 == crc_step(r3, hb3),
        hb4 == (hb3 << 1u8) as u8,
        r5 == crc_step(r4, hb4),
        hb5 == (hb4 << 1u8) as u8,
        r6 == crc_step(r5, hb5),
        hb6 == (hb5 << 1u8) as u8,
        r7 == crc_step(r6, hb6),
        hb7 == (hb6 << 1u8) as u8,
        r8 == crc_step(r7, hb7),
        r9 == crc_step(r8, lb),
        lb1 == (lb << 1u8) as u8,
        r10 == crc_step(r9, lb1),
        lb2 == (lb1 << 1u8) as u8,
        r11 == crc_step(r10, lb2),
        lb3 == (lb2 << 1u8) as u8,
        r12 == crc_step(r11, lb3),
        lb4 == (lb3 << 1u8) as u8,
        r13 == crc_step(r12, lb4),
        lb5 == (lb4 << 1u8) as u8,
        r14 == crc_step(r13, lb5),
        lb6 == (lb5 << 1u8) as u8,
        r15 == crc_step(r14, lb6),
        lb7 == (lb6 << 1u8) as u8,
        r16 == crc_step(r15, lb7),
    ensures
        r16 ^ 0xffffu16 == 0xe2f0u16,
{
}

/// Appending the checksum of `s` to `s`, most significant byte first, gives a
/// sequence whose checksum is the constant 0xE2F0, whatever `s` is.
pub proof fn lemma_checksum_residue(s: Seq<u8>)
    ensures
        checksum_spec(s + be_bytes(checksum_spec(s))) == 0xe2f0u16,
{
    let r = crc_update(0xffff, s);
    let c = checksum_spec(s);
    let t = s + be_bytes(c);
    let hb = (c / 256) as u8;
    let lb = (c % 256) as u8;
    assert(t.drop_last() =~= s.push(hb));
    assert(s.push(hb).drop_last() =~= s);
    assert(crc_update(0xffff, s.push(hb)) == crc_bits(r, hb, 8));
    assert(crc_update(0xffff, t) == crc_bits(crc_bits(r, hb, 8), lb, 8));
    lemma_crc_byte_steps(r, hb);
    lemma_crc_byte_steps(crc_bits(r, hb, 8), lb);
    let r1 = crc_step(r, hb);
    let hb1 = (hb << 1u8) as u8;
    let r2 = crc_step(r1, hb1);
    let hb2 = (hb1 << 1u8) as u8;
    let r3 = crc_step(r2, hb2);
    let hb3 = (hb2 << 1u8) as u8;
    let r4 = crc_step(r3, hb3);
    let hb4 = (hb3 << 1u8) as u8;
    let r5 = crc_step(r4, hb4);
    let hb5 = (hb4 << 1u8) as u8;
    let r6 = crc_step(r5, hb5);
    let hb6 = (hb5 << 1u8) as u8;
    let r7 = crc_step(r6, hb6);
    let hb7 = (hb6 << 1u8) as u8;
    let r8 = crc_step(r7, hb7);
    let r9 = crc_step(r8, lb);
    let lb1 = (lb << 1u8) as u8;
    let r10 = crc_step(r9, lb1);
    let lb2 = (lb1 << 1u8) as u8;
    let r11 = crc_step(r10, lb2);
    let lb3 = (lb2 << 1u8) as u8;
    let r12 = crc_step(r11, lb3);
    let lb4 = (lb3 << 1u8) as u8;
    let r13 = crc_step(r12, lb4);
    let lb5 = (lb4 << 1u8) as u8;
    let r14 = crc_step(r13, lb5);
    let lb6 = (lb5 << 1u8) as u8;
    let r15 = crc_step(r14, lb6);
    let lb7 = (lb6 << 1u8) as u8;
    let r16 = crc_step(r15, lb7);
    lemma_residue_bits(r, hb, lb, r1, hb1, r2, hb2, r3, hb3, r4, hb4, r5, hb5, r6, hb6, r7, hb7, r8, r9, lb1, r10, lb2, r11, lb3, r12, lb4, r13, lb5, r14, lb6, r15, lb7, r16);
}

/// Size of one record handed back by the transport.
pub const RECORD_LEN: usize = 256;

/// The two bytes of `v`, most significant first.
pub open spec fn be_bytes(v: u16) -> Seq<u8> {
    seq![(v / 256) as u8, (v % 256) as u8]
}

/// Length of `s.subrange(0, n)` once trailing zero bytes are dropped; the
/// first byte is never dropped.
pub open spec fn trim_zeros(s: Seq<u8>, n: int) -> int
    decreases n,
{
    if n <= 1 || s[n - 1] != 0 {
        n
    } else {
        trim_zeros(s, n - 1)
    }
}

/// Length of `s` without its trailing zero padding (the first byte is kept).
pub open spec fn unpadded_len(s: Seq<u8>) -> int {
    trim_zeros(s, s.len() as int)
}

/// Length of `bytes` without its trailing zero padding.
///
/// Payload bytes that are genuinely zero at the end cannot be told apart from
/// padding: they are dropped too. This is a limitation of the protocol.
pub fn unpadded_length(bytes: &[u8]) -> (r: usize)
    ensures
        r == unpadded_len(bytes@),
        r <= bytes@.len(),
{
    let mut n: usize = bytes.len();
    while n > 1 && bytes[n - 1] == 0
        invariant
            n <= bytes.len(),
            trim_zeros(bytes@, n as int) == unpadded_len(bytes@),
        decreases n,
    {
        n = n - 1;
    }
    n
}

/// The bytes of an open frame once finalized: the length field is set to the
/// number of bytes after the start byte (itself included) and the checksum of
/// everything after the start byte is appended.
pub open spec fn sealed(bytes: Seq<u8>) -> Seq<u8> {
    let length = (bytes.len() - 1) % 0x10000;
    let body = bytes.update(1, (length / 256) as u8).update(2, (length % 256) as u8);
    body + be_bytes(checksum_spec(body.subrange(1, body.len() as int)))
}

/// What a received record decodes to: the frame bytes, or the error.
pub open spec fn parse_spec(raw: Seq<u8>) -> Result<Seq<u8>, ReaderError> {
    let n = unpadded_len(raw);
    if n < 3 {
        Err(ReaderError::WrongResponse)
    } else if be_bytes(checksum_spec(raw.subrange(1, n - 2))) != raw.subrange(n - 2, n) {
        Err(ReaderError::WrongChecksum)
    } else {
        Ok(raw.subrange(0, n))
    }
}

/// The payload region of a frame: after the three header bytes, and before
/// the checksum once the frame is finalized.
pub open spec fn payload_of(bytes: Seq<u8>, finalized: bool) -> Seq<u8> {
    if !finalized {
        bytes.subrange(3, bytes.len() as int)
    } else if bytes.len() >= 5 {
        bytes.subrange(3, bytes.len() - 2)
    } else {
        Seq::empty()
    }
}

/// An open frame with the given start byte and payload, before finalizing.
pub open spec fn open_frame(start_byte: u8, payload: Seq<u8>) -> Seq<u8> {
    seq![start_byte, 0u8, 0u8] + payload
}

/// A frame as the transport hands it back: zero-padded to a full record.
pub open spec fn padded(frame: Seq<u8>) -> Seq<u8> {
    frame + Seq::new((RECORD_LEN - frame.len()) as nat, |i: int| 0u8)
}

proof fn lemma_trim_padded(frame: Seq<u8>, n: int)
    requires
        1 <= frame.len() <= n <= RECORD_LEN,
        frame.last() != 0,
    ensures
        trim_zeros(padded(frame), n) == frame.len(),
    decreases n,
{
    if n > frame.len() {
        lemma_trim_padded(frame, n - 1);
    }
}

proof fn lemma_be_bytes_injective(a: u16, b: u16)
    requires
        be_bytes(a) == be_bytes(b),
    ensures
        a == b,
{
    assert(be_bytes(a)[0] == be_bytes(b)[0] && be_bytes(a)[1] == be_bytes(b)[1]);
    assert(a == 256 * (a / 256) + a % 256);
    assert(b == 256 * (b / 256) + b % 256);
}

/// A frame of at most 256 bytes whose last byte is non-zero, received in a
/// zero-padded record, parses back to itself exactly when its last two bytes
/// are the checksum of the bytes between its start byte and them; otherwise
/// it fails with `WrongChecksum`. So a checksum field altered in any bit is
/// rejected, as long as its low byte stays non-zero (a zero low byte would
/// read as padding).
pub proof fn lemma_checksum_verified(body: Seq<u8>, c: u16)
    requires
        1 <= body.len() <= RECORD_LEN - 2,
        c % 256 != 0,
    ensures
        c == checksum_spec(body.subrange(1, body.len() as int))
            ==> parse_spec(padded(body + be_bytes(c))) == Ok::<Seq<u8>, ReaderError>(body + be_bytes(c)),
        c != checksum_spec(body.subrange(1, body.len() as int))
            ==> parse_spec(padded(body + be_bytes(c))) == Err::<Seq<u8>, ReaderError>(ReaderError::WrongChecksum),
{
    let frame = body + be_bytes(c);
    let raw = padded(frame);
    let n = frame.len() as int;
    assert(frame.last() == (c % 256) as u8);
    lemma_trim_padded(frame, RECORD_LEN as int);
    assert(unpadded_len(raw) == n);
    assert(raw.subrange(1, n - 2) =~= body.subrange(1, body.len() as int));
    assert(raw.subrange(n - 2, n) =~= be_bytes(c));
    assert(raw.subrange(0, n) =~= frame);
    if be_bytes(checksum_spec(body.subrange(1, body.len() as int))) == be_bytes(c) {
        lemma_be_bytes_injective(checksum_spec(body.subrange(1, body.len() as int)), c);
    }
}

/// Building a frame from a payload of at most 251 bytes, finalizing it, and
/// parsing it from a zero-padded record gives back the same frame and the
/// same payload, unless the checksum's low byte is zero (it would read as
/// padding).
pub proof fn lemma_round_trip(start_byte: u8, payload: Seq<u8>)
    requires
        payload.len() <= RECORD_LEN - 5,
        sealed(open_frame(start_byte, payload)).last() != 0,
    ensures
        parse_spec(padded(sealed(open_frame(start_byte, payload))))
            == Ok::<Seq<u8>, ReaderError>(sealed(open_frame(start_byte, payload))),
        payload_of(sealed(open_frame(start_byte, payload)), true) == payload,
{
    let o = open_frame(start_byte, payload);
    let length = (o.len() - 1) % 0x10000;
    let body = o.update(1, (length / 256) as u8).update(2, (length % 256) as u8);
    let c = checksum_spec(body.subrange(1, body.len() as int));
    let f = sealed(o);
    assert(f == body + be_bytes(c));
    assert(f.last() == (c % 256) as u8);
    lemma_checksum_verified(body, c);
    assert(f.subrange(3, f.len() - 2) =~= payload);
}

/// A frame under construction or finalized.
pub struct Buffer {
    buf: Vec<u8>,
    finalized: bool,
}

impl Buffer {
    /// The bytes of the frame.
    pub closed spec fn bytes(&self) -> Seq<u8> {
        self.buf@
    }

    /// Whether the checksum has been appended.
    pub closed spec fn is_finalized(&self) -> bool {
        self.finalized
    }

    /// Every frame holds at least its start byte and length field.
    pub open spec fn wf(&self) -> bool {
        self.bytes().len() >= 3
    }

    /// The payload of the frame.
    pub open spec fn payload(&self) -> Seq<u8> {
        payload_of(self.bytes(), self.is_finalized())
    }

    /// An open frame with the given start byte and an empty payload.
    pub fn new(start_byte: u8) -> (r: Self)
        ensures
            r.wf(),
            r.bytes() == seq![start_byte, 0u8, 0u8],
            !r.is_finalized(),
    {
        let mut vector: Vec<u8> = Vec::with_capacity(RECORD_LEN);
        vector.push(start_byte);
        vector.push(0x00);
        vector.push(0x00);
        Self { buf: vector, finalized: false }
    }

    /// An open frame with the given start byte and payload.
    pub fn new_with_data(start_byte: u8, data: &[u8]) -> (r: Self)
        ensures
            r.wf(),
            r.bytes() == seq![start_byte, 0u8, 0u8] + data@,
            !r.is_finalized(),
    {
        let mut buf = Self::new(start_byte);
        buf.write_all(data);
        buf
    }

    /// Appends one byte to the payload. The transport carries frames of at
    /// most 256 bytes, checksum included: keeping within that is up to the
    /// caller.
    pub fn write(&mut self, byte: u8)
        requires
            old(self).wf(),
            !old(self).is_finalized(),
        ensures
            final(self).wf(),
            final(self).bytes() == old(self).bytes().push(byte),
            !final(self).is_finalized(),
    {
        self.buf.push(byte);
    }

    /// Appends bytes to the payload.
    pub fn write_all(&mut self, data: &[u8])
        requires
            old(self).wf(),
            !old(self).is_finalized(),
        ensures
            final(self).wf(),
            final(self).bytes() == old(self).bytes() + data@,
            !final(self).is_finalized(),
    {
        let mut i: usize = 0;
        while i < data.len()
            invariant
                i <= data.len(),
                self.wf(),
                !self.is_finalized(),
                self.bytes() == old(self).bytes() + data@.subrange(0, i as int),
            decreases data.len() - i,
        {
            self.write(data[i]);
            assert(data@.subrange(0, i + 1) =~= data@.subrange(0, i as int).push(data@[i as int]));
            i = i + 1;
        }
        assert(data@.subrange(0, data.len() as int) =~= data@);
    }

    /// Sets the length field, appends the checksum and returns the frame.
    /// A frame that is already finalized is returned unchanged.
    pub fn finalize(&mut self) -> (r: &[u8])
        requires
            old(self).wf(),
        ensures
            final(self).wf(),
            final(self).is_finalized(),
            old(self).is_finalized() ==> final(self).bytes() == old(self).bytes(),
            !old(self).is_finalized() ==> final(self).bytes() == sealed(old(self).bytes()),
            r@ == final(self).bytes(),
    {
        if self.finalized {
            return self.buf.as_slice();
        }
        let length: usize = (self.buf.len() - 1) % 0x10000;
        self.buf.set(2, (length % 256) as u8);
        self.buf.set(1, (length / 256) as u8);
        let checksum = Self::calc_checksum(self.buf.as_slice());
        self.buf.push((checksum / 256) as u8);
        self.buf.push((checksum % 256) as u8);
        self.finalized = true;
        proof {
            let bytes = old(self).bytes();
            let body = bytes.update(1, (length / 256) as u8).update(2, (length % 256) as u8);
            assert(body =~= bytes.update(2, (length % 256) as u8).update(1, (length / 256) as u8));
            assert(self.buf@ =~= sealed(bytes));
        }
        self.buf.as_slice()
    }

    /// The start byte of the frame.
    pub fn start_byte(&self) -> (r: &u8)
        requires
            self.wf(),
        ensures
            *r == self.bytes()[0],
    {
        &self.buf[0]
    }

    /// The payload, or `None` when it is empty.
    pub fn data(&self) -> (r: Option<&[u8]>)
        requires
            self.wf(),
        ensures
            self.payload().len() == 0 ==> r.is_none(),
            self.payload().len() > 0 ==> r.is_some() && r.unwrap()@ == self.payload(),
    {
        let len = self.buf.len();
        if !self.finalized {
            if len <= 3 {
                None
            } else {
                Some(vstd::slice::slice_subrange(self.buf.as_slice(), 3, len))
            }
        } else if len <= 5 {
            None
        } else {
            Some(vstd::slice::slice_subrange(self.buf.as_slice(), 3, len - 2))
        }
    }

    /// Checksum of a frame: everything after the start byte.
    fn calc_checksum(buf: &[u8]) -> (r: u16)
        requires
            buf@.len() >= 1,
        ensures
            r == checksum_spec(buf@.subrange(1, buf@.len() as int)),
    {
        checksum(vstd::slice::slice_subrange(buf, 1, buf.len()))
    }

    /// Decodes a record received from the transport: trailing zero padding
    /// is dropped, and the last two remaining bytes must be the checksum of
    /// those between the start byte and them.
    pub fn from_record(raw: [u8; 256]) -> (r: Result<Buffer, ReaderError>)
        ensures
            match r {
                Ok(b) => b.wf() && b.is_finalized() && parse_spec(raw@) == Ok::<Seq<u8>, ReaderError>(b.bytes()),
                Err(e) => parse_spec(raw@) == Err::<Seq<u8>, ReaderError>(e),
            },
    {
        let n = unpadded_length(&raw);
        if n < 3 {
            return Err(ReaderError::WrongResponse);
        }
        let true_checksum = checksum(vstd::slice::slice_subrange(&raw, 1, n - 2));
        if (true_checksum / 256) as u8 != raw[n - 2] || (true_checksum % 256) as u8 != raw[n - 1] {
            proof {
                assert(be_bytes(true_checksum)[0] != raw@.subrange(n - 2, n as int)[0]
                    || be_bytes(true_checksum)[1] != raw@.subrange(n - 2, n as int)[1]);
            }
            return Err(ReaderError::WrongChecksum);
        }
        assert(be_bytes(true_checksum) =~= raw@.subrange(n - 2, n as int));
        let mut buffer: Vec<u8> = Vec::with_capacity(RECORD_LEN);
        let mut i: usize = 0;
        while i < n
            invariant
                i <= n,
                n <= 256,
                buffer@ == raw@.subrange(0, i as int),
            decreases n - i,
        {
            buffer.push(raw[i]);
            assert(raw@.subrange(0, i + 1) =~= raw@.subrange(0, i as int).push(raw@[i as int]));
            i = i + 1;
        }
        Ok(Buffer { buf: buffer, finalized: true })
    }
}

impl TryFrom<[u8; 256]> for Buffer {
    type Error = ReaderError;

    fn try_from(raw: [u8; 256]) -> (r: Result<Buffer, ReaderError>)
        ensures
            match r {
                Ok(b) => b.wf() && b.is_finalized() && parse_spec(raw@) == Ok::<Seq<u8>, ReaderError>(b.bytes()),
                Err(e) => parse_spec(raw@) == Err::<Seq<u8>, ReaderError>(e),
            },
    {
        Buffer::from_record(raw)
    }
}

/// The result of `try_from` is stated by its own `ensures`, over `parse_spec`.
impl vstd::std_specs::convert::TryFromSpecImpl<[u8; 256]> for Buffer {
    open spec fn obeys_try_from_spec() -> bool {
        false
    }

    open spec fn try_from_spec(raw: [u8; 256]) -> Result<Buffer, ReaderError> {
        arbitrary()
    }
}

} // verus!
