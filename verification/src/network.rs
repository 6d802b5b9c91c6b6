//! The datagram that carries one snapshot of the bands.
//!
//! Layout, nine header bytes followed by one byte per band:
//!
//! | offset | size | field                                        |
//! |--------|------|----------------------------------------------|
//! | 0      | 2    | magic `AD 01`                                |
//! | 2      | 1    | version                                      |
//! | 3      | 1    | number of bands                              |
//! | 4      | 1    | flags (bit 0: interpolated logarithmic bands) |
//! | 5      | 4    | Unix time in seconds, little-endian          |
//! | 9      | n    | band amplitudes, 255 being full scale        |

use crate::distance;
use crate::UNIT;
use vstd::prelude::*;

verus! {

/// First magic byte of every packet.
pub const MAGIC_0: u8 = 0xAD;

/// Second magic byte of every packet.
pub const MAGIC_1: u8 = 0x01;

/// The protocol version written into new packets.
pub const VERSION: u8 = 0x01;

/// Number of bytes before the band amplitudes.
pub const HEADER_SIZE: usize = 9;

/// Largest number of bands a packet can carry.
pub const MAX_BANDS: usize = 255;

/// Flag bit set when the bands are interpolated on the logarithmic scale.
pub const FLAG_INTERPOLATED_LOG: u8 = 1;

/// The byte that stands for an amplitude: the amplitude as a fraction of
/// full scale times 255, rounded to the nearest integer and limited to 255.
pub open spec fn quantized(amplitude: u32) -> int {
    let level = (amplitude * 255 + 500_000) / (UNIT as int);
    if level <= 255 {
        level
    } else {
        255
    }
}

/// The four bytes of `x`, least significant first.
pub open spec fn le_bytes(x: u32) -> Seq<u8> {
    seq![
        (x % 256) as u8,
        (x / 256 % 256) as u8,
        (x / 65_536 % 256) as u8,
        (x / 16_777_216) as u8,
    ]
}

/// The number whose four bytes, least significant first, are given.
pub open spec fn from_le_bytes(b0: u8, b1: u8, b2: u8, b3: u8) -> u32 {
    (b0 + 256 * b1 + 65_536 * b2 + 16_777_216 * b3) as u32
}

/// What a packet says.
pub struct PacketView {
    pub version: u8,
    pub flags: u8,
    /// Unix time in seconds.
    pub timestamp: u32,
    /// One amplitude byte per band.
    pub bands: Seq<u8>,
}

impl PacketView {
    /// Whether the bands fit the one-byte band count.
    pub open spec fn well_formed(self) -> bool {
        self.bands.len() <= MAX_BANDS
    }
}

/// The packet made from band amplitudes: the current version, the
/// interpolation flag alone, and the first 255 bands, each quantized.
pub open spec fn packet_of(bands: Seq<u32>, interpolated_log: bool, timestamp: u32) -> PacketView {
    PacketView {
        version: VERSION,
        flags: if interpolated_log {
            FLAG_INTERPOLATED_LOG
        } else {
            0
        },
        timestamp,
        bands: Seq::new(
            if bands.len() <= MAX_BANDS {
                bands.len()
            } else {
                MAX_BANDS as nat
            },
            |i: int| quantized(bands[i]) as u8,
        ),
    }
}

/// The bytes of a packet on the wire.
pub open spec fn encode(packet: PacketView) -> Seq<u8> {
    seq![MAGIC_0, MAGIC_1, packet.version, packet.bands.len() as u8, packet.flags] + le_bytes(
        packet.timestamp,
    ) + packet.bands
}

/// The packet that bytes from the wire hold: nothing when there are fewer
/// bytes than a header, when the magic bytes are wrong, or when the number
/// of bytes after the header differs from the band count.
pub open spec fn decode(data: Seq<u8>) -> Option<PacketView> {
    if data.len() < HEADER_SIZE || data[0] != MAGIC_0 || data[1] != MAGIC_1 || data.len()
        != HEADER_SIZE + data[3] {
        None
    } else {
        Some(
            PacketView {
                version: data[2],
                flags: data[4],
                timestamp: from_le_bytes(data[5], data[6], data[7], data[8]),
                bands: data.skip(HEADER_SIZE as int),
            },
        )
    }
}

/// Splitting a number into bytes and joining them again gives the number back.
pub proof fn lemma_le_bytes_round_trip(x: u32)
    ensures
        le_bytes(x).len() == 4,
        from_le_bytes(le_bytes(x)[0], le_bytes(x)[1], le_bytes(x)[2], le_bytes(x)[3]) == x,
{
}

/// Joining four bytes into a number and splitting it again gives the bytes back.
pub proof fn lemma_from_le_bytes_round_trip(b0: u8, b1: u8, b2: u8, b3: u8)
    ensures
        le_bytes(from_le_bytes(b0, b1, b2, b3)) == seq![b0, b1, b2, b3],
{
    assert(le_bytes(from_le_bytes(b0, b1, b2, b3)) =~= seq![b0, b1, b2, b3]);
}

/// Decoding an encoded packet gives the packet back: the band count, the
/// flags, the timestamp and every amplitude byte survive the wire.
pub proof fn lemma_decode_encode(packet: PacketView)
    requires
        packet.well_formed(),
    ensures
        encode(packet).len() == HEADER_SIZE + packet.bands.len(),
        decode(encode(packet)) == Some(packet),
{
    let data = encode(packet);
    lemma_le_bytes_round_trip(packet.timestamp);
    assert(data.len() == HEADER_SIZE + packet.bands.len());
    assert(data[0] == MAGIC_0 && data[1] == MAGIC_1);
    assert(data[2] == packet.version);
    assert(data[3] == packet.bands.len());
    assert(data[4] == packet.flags);
    assert(data[5] == le_bytes(packet.timestamp)[0]);
    assert(data[6] == le_bytes(packet.timestamp)[1]);
    assert(data[7] == le_bytes(packet.timestamp)[2]);
    assert(data[8] == le_bytes(packet.timestamp)[3]);
    assert(data.skip(HEADER_SIZE as int) =~= packet.bands);
}

/// Bytes that decode to a packet are exactly that packet's encoding.
pub proof fn lemma_encode_decode(data: Seq<u8>)
    requires
        decode(data) is Some,
    ensures
        decode(data).unwrap().well_formed(),
        encode(decode(data).unwrap()) == data,
{
    let packet = decode(data).unwrap();
    lemma_from_le_bytes_round_trip(data[5], data[6], data[7], data[8]);
    assert(encode(packet) =~= data);
}

/// Bytes that do not start with the magic bytes hold no packet, whatever
/// follows.
pub proof fn lemma_wrong_magic_is_rejected(data: Seq<u8>)
    requires
        data.len() < 2 || data[0] != MAGIC_0 || data[1] != MAGIC_1,
    ensures
        decode(data) is None,
{
}

/// Quantizing an amplitude up to full scale loses at most half a step of
/// the 255: the byte, read back as a fraction of 255, differs from the
/// amplitude by no more than 1/510 of full scale, and so by less than
/// 1/255.
pub proof fn lemma_quantized_error(amplitude: u32)
    requires
        amplitude <= UNIT,
    ensures
        0 <= quantized(amplitude) <= 255,
        2 * distance(quantized(amplitude) * UNIT, amplitude * 255) <= UNIT,
        distance(quantized(amplitude) * UNIT, amplitude * 255) <= UNIT,
{
}

/// A larger amplitude never quantizes to a smaller byte, zero quantizes to
/// 0 and full scale (or more) to 255.
pub proof fn lemma_quantized_monotonic(a: u32, b: u32)
    requires
        a <= b,
    ensures
        quantized(a) <= quantized(b),
        quantized(0) == 0,
        a >= UNIT ==> quantized(a) == 255,
{
}

/// Quantizes an amplitude to a byte.
pub fn quantize(amplitude: u32) -> (level: u8)
    ensures
        level == quantized(amplitude),
{
    let level = ((amplitude as u64) * 255 + 500_000) / (UNIT as u64);
    if level <= 255 {
        level as u8
    } else {
        255
    }
}

/// One snapshot of the bands, ready for the wire.
pub struct CompactAudioPacket {
    magic: [u8; 2],
    version: u8,
    num_bands: u8,
    flags: u8,
    timestamp: u32,
    bands: Vec<u8>,
}

impl View for CompactAudioPacket {
    type V = PacketView;

    closed spec fn view(&self) -> PacketView {
        PacketView {
            version: self.version,
            flags: self.flags,
            timestamp: self.timestamp,
            bands: self.bands@,
        }
    }
}

impl CompactAudioPacket {
    #[verifier::type_invariant]
    spec fn consistent(&self) -> bool {
        &&& self.magic[0] == MAGIC_0
        &&& self.magic[1] == MAGIC_1
        &&& self.num_bands == self.bands@.len()
    }

    /// Makes a packet from band amplitudes. Bands beyond the 255th are
    /// dropped.
    pub fn new(bands: &[u32], interpolated_log: bool, timestamp: u32) -> (packet: Self)
        ensures
            packet@ == packet_of(bands@, interpolated_log, timestamp),
            packet@.well_formed(),
    {
        let count: usize = if bands.len() <= MAX_BANDS {
            bands.len()
        } else {
            MAX_BANDS
        };
        let flags: u8 = if interpolated_log {
            FLAG_INTERPOLATED_LOG
        } else {
            0
        };
        let mut compact: Vec<u8> = Vec::new();
        let mut i: usize = 0;
        while i < count
            invariant
                i <= count <= bands@.len(),
                compact@.len() == i,
                forall|k: int| 0 <= k < i ==> compact@[k] == quantized(bands@[k]) as u8,
            decreases count - i,
        {
            compact.push(quantize(bands[i]));
            i = i + 1;
        }
        proof {
            assert(compact@ =~= packet_of(bands@, interpolated_log, timestamp).bands);
        }
        CompactAudioPacket {
            magic: [MAGIC_0, MAGIC_1],
            version: VERSION,
            num_bands: count as u8,
            flags,
            timestamp,
            bands: compact,
        }
    }

    /// The bytes of this packet on the wire.
    pub fn to_bytes(&self) -> (bytes: Vec<u8>)
        ensures
            bytes@ == encode(self@),
            bytes@.len() == HEADER_SIZE + self@.bands.len(),
            self@.well_formed(),
    {
        proof {
            use_type_invariant(self);
        }
        let t = self.timestamp;
        let mut packet: Vec<u8> = Vec::with_capacity(HEADER_SIZE + self.bands.len());
        packet.push(self.magic[0]);
        packet.push(self.magic[1]);
        packet.push(self.version);
        packet.push(self.num_bands);
        packet.push(self.flags);
        packet.push((t % 256) as u8);
        packet.push((t / 256 % 256) as u8);
        packet.push((t / 65_536 % 256) as u8);
        packet.push((t / 16_777_216) as u8);
        let ghost header = packet@;
        let mut i: usize = 0;
        while i < self.bands.len()
            invariant
                i <= self.bands@.len(),
                packet@ == header + self.bands@.take(i as int),
            decreases self.bands.len() - i,
        {
            packet.push(self.bands[i]);
            proof {
                assert(self.bands@.take(i + 1) == self.bands@.take(i as int).push(
                    self.bands@[i as int],
                ));
            }
            i = i + 1;
        }
        proof {
            assert(self.bands@.take(self.bands@.len() as int) == self.bands@);
            assert(packet@ =~= encode(self@));
        }
        packet
    }

    /// Reads a packet from bytes off the wire.
    pub fn from_bytes(data: &[u8]) -> (packet: Option<Self>)
        ensures
            match packet {
                Some(p) => decode(data@) == Some(p@) && p@.well_formed(),
                None => decode(data@) is None,
            },
    {
        if data.len() < HEADER_SIZE {
            return None;
        }
        if data[0] != MAGIC_0 || data[1] != MAGIC_1 {
            return None;
        }
        let version = data[2];
        let num_bands = data[3];
        let flags = data[4];
        let timestamp: u32 = (data[5] as u32) + 256 * (data[6] as u32) + 65_536 * (data[7] as u32)
            + 16_777_216 * (data[8] as u32);
        if data.len() != HEADER_SIZE + num_bands as usize {
            return None;
        }
        let mut bands: Vec<u8> = Vec::new();
        let mut i: usize = HEADER_SIZE;
        while i < data.len()
            invariant
                HEADER_SIZE <= i <= data@.len(),
                bands@.len() == i - HEADER_SIZE,
                forall|k: int| 0 <= k < bands@.len() ==> bands@[k] == data@[HEADER_SIZE + k],
            decreases data.len() - i,
        {
            bands.push(data[i]);
            i = i + 1;
        }
        proof {
            assert(bands@ =~= data@.skip(HEADER_SIZE as int));
        }
        Some(CompactAudioPacket { magic: [MAGIC_0, MAGIC_1], version, num_bands, flags, timestamp, bands })
    }

    /// The protocol version this packet carries.
    pub fn version(&self) -> (version: u8)
        ensures
            version == self@.version,
    {
        self.version
    }

    /// The number of bands this packet carries.
    pub fn num_bands(&self) -> (count: u8)
        ensures
            count == self@.bands.len(),
    {
        proof {
            use_type_invariant(self);
        }
        self.num_bands
    }

    /// The flag byte of this packet.
    pub fn flags(&self) -> (flags: u8)
        ensures
            flags == self@.flags,
    {
        self.flags
    }

    /// Whether the interpolation flag is set.
    pub fn interpolated_log(&self) -> (set: bool)
        ensures
            set == (self@.flags % 2 == 1),
    {
        self.flags % 2 == 1
    }

    /// The Unix time, in seconds, this packet carries.
    pub fn timestamp(&self) -> (timestamp: u32)
        ensures
            timestamp == self@.timestamp,
    {
        self.timestamp
    }

    /// The amplitude byte of every band.
    pub fn bands(&self) -> (bands: &Vec<u8>)
        ensures
            bands@ == self@.bands,
    {
        &self.bands
    }
}

/// The datagram for a snapshot of the bands: the bytes of the packet made
/// from them.
pub fn packet_bytes(bands: &[u32], interpolated_log: bool, timestamp: u32) -> (bytes: Vec<u8>)
    ensures
        bytes@ == encode(packet_of(bands@, interpolated_log, timestamp)),
        decode(bytes@) == Some(packet_of(bands@, interpolated_log, timestamp)),
{
    proof {
        lemma_decode_encode(packet_of(bands@, interpolated_log, timestamp));
    }
    CompactAudioPacket::new(bands, interpolated_log, timestamp).to_bytes()
}

} // verus!
