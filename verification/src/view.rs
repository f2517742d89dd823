//! Reading foreign objects without trusting a compiler-derived layout: a
//! `MemoryView` is a snapshot window copied out of the target's memory, and
//! every field of a game record is an explicit offset-and-width-checked
//! read out of such a window. The decoded records hold plain values.

use vstd::prelude::*;

use crate::bytes;
use crate::text;

verus! {

/// Offset of the manager back-pointer inside a game-data record.
pub const GAME_DATA_MANAGER_OFF: usize = 0x10;

/// Offset of the inline name buffer inside a game-data record.
pub const GAME_DATA_NAME_OFF: usize = 0x28;

/// Length of the inline name buffer of a game-data record.
pub const GAME_DATA_NAME_LEN: usize = 0x10;

/// Offset of the name length inside a game-data record.
pub const GAME_DATA_NAME_LEN_OFF: usize = 0x38;

/// Bytes of a game-data record the decoder reads.
pub const GAME_DATA_VIEW_LEN: usize = 0x3C;

/// Offset of the inline name buffer inside a faction record.
pub const FACTION_NAME_OFF: usize = 0x1A8;

/// Length of the inline name buffer of a faction record.
pub const FACTION_NAME_LEN: usize = 0x10;

/// Offset of the name length inside a faction record.
pub const FACTION_NAME_LEN_OFF: usize = 0x1B8;

/// Bytes of a faction record the decoder reads.
pub const FACTION_VIEW_LEN: usize = 0x1BC;

/// Offset of the medical-system pointer inside a character-stats record.
pub const CHAR_STATS_MEDICAL_OFF: usize = 0x8;

/// Bytes of a character-stats record the decoder reads.
pub const CHAR_STATS_VIEW_LEN: usize = 0x10;

/// Length of the inline buffer of an engine string record.
pub const KENSHI_STRING_BUF_LEN: usize = 0x10;

/// Offset of the length field of an engine string record.
pub const KENSHI_STRING_SIZE_OFF: usize = 0x10;

/// Bytes of an engine string record the decoder reads.
pub const KENSHI_STRING_VIEW_LEN: usize = 0x14;

/// A window of the target's memory: the absolute address it was copied
/// from, and the bytes it held at copy time.
pub struct MemoryView {
    pub base: usize,
    pub bytes: Vec<u8>,
}

impl MemoryView {
    /// Number of bytes the window holds.
    pub fn len(&self) -> (r: usize)
        ensures
            r == self.bytes@.len(),
    {
        self.bytes.len()
    }

    /// The byte at `offset`.
    pub fn read_u8(&self, offset: usize) -> (r: u8)
        requires
            offset < self.bytes@.len(),
        ensures
            r == self.bytes@[offset as int],
    {
        self.bytes[offset]
    }

    /// The 32-bit little-endian word at `offset`.
    pub fn read_u32(&self, offset: usize) -> (r: u32)
        requires
            offset + 4 <= self.bytes@.len(),
        ensures
            bytes::u32_le_bytes(r) == self.bytes@.subrange(offset as int, offset as int + 4),
    {
        bytes::read_u32_le(&self.bytes, offset)
    }

    /// The 64-bit little-endian word at `offset` — how every pointer field
    /// is read.
    pub fn read_u64(&self, offset: usize) -> (r: u64)
        requires
            offset + 8 <= self.bytes@.len(),
        ensures
            bytes::u64_le_bytes(r) == self.bytes@.subrange(offset as int, offset as int + 8),
    {
        bytes::read_u64_le(&self.bytes, offset)
    }

    /// A copy of `count` bytes starting at `offset`.
    pub fn read_bytes(&self, offset: usize, count: usize) -> (r: Vec<u8>)
        requires
            offset + count <= self.bytes@.len(),
        ensures
            r@ == self.bytes@.subrange(offset as int, offset as int + count),
    {
        let n: usize = self.bytes.len();
        let mut r: Vec<u8> = Vec::new();
        let mut i: usize = 0;
        while i < count
            invariant
                i <= count,
                offset + count <= self.bytes@.len(),
                n == self.bytes@.len(),
                r@ == self.bytes@.subrange(offset as int, offset as int + i),
            decreases count - i,
        {
            r.push(self.bytes[offset + i]);
            assert(r@ =~= self.bytes@.subrange(offset as int, offset as int + i + 1));
            i = i + 1;
        }
        r
    }
}

/// An engine string record: a 16-byte inline buffer and the length of its
/// used prefix.
pub struct KenshiString {
    pub string: Vec<u8>,
    pub size: u32,
}

impl KenshiString {
    /// The record's invariant: the inline buffer is exactly 16 bytes.
    pub open spec fn wf(self) -> bool {
        self.string@.len() == KENSHI_STRING_BUF_LEN
    }

    /// Decodes an engine string from a window over its record.
    pub fn from_view(v: &MemoryView) -> (r: KenshiString)
        requires
            v.bytes@.len() >= KENSHI_STRING_VIEW_LEN,
        ensures
            r.wf(),
            r.string@ == v.bytes@.subrange(0, KENSHI_STRING_BUF_LEN as int),
            bytes::u32_le_bytes(r.size) == v.bytes@.subrange(
                KENSHI_STRING_SIZE_OFF as int,
                KENSHI_STRING_SIZE_OFF as int + 4,
            ),
    {
        KenshiString {
            string: v.read_bytes(0, KENSHI_STRING_BUF_LEN),
            size: v.read_u32(KENSHI_STRING_SIZE_OFF),
        }
    }

    /// The used prefix of the buffer: `size` bytes, capped at the buffer.
    pub fn content(&self) -> (r: Vec<u8>)
        requires
            self.wf(),
        ensures
            r@ == self.string@.subrange(
                0,
                if self.size < KENSHI_STRING_BUF_LEN {
                    self.size as int
                } else {
                    KENSHI_STRING_BUF_LEN as int
                },
            ),
    {
        let take: usize = if self.size < (KENSHI_STRING_BUF_LEN as u32) {
            self.size as usize
        } else {
            KENSHI_STRING_BUF_LEN
        };
        let mut r: Vec<u8> = Vec::new();
        let mut i: usize = 0;
        while i < take
            invariant
                i <= take,
                take <= self.string@.len(),
                r@ == self.string@.subrange(0, i as int),
            decreases take - i,
        {
            r.push(self.string[i]);
            assert(r@ =~= self.string@.subrange(0, i as int + 1));
            i = i + 1;
        }
        r
    }
}

/// A game-data record: the address of its owning manager, its inline name
/// buffer, and the name's length.
pub struct GameData {
    pub manager: u64,
    pub name: Vec<u8>,
    pub name_length: u32,
}

impl GameData {
    /// The record's invariant: the inline name buffer is exactly 16 bytes.
    pub open spec fn wf(self) -> bool {
        self.name@.len() == GAME_DATA_NAME_LEN
    }

    /// Decodes a game-data record from a window over it.
    pub fn from_view(v: &MemoryView) -> (r: GameData)
        requires
            v.bytes@.len() >= GAME_DATA_VIEW_LEN,
        ensures
            r.wf(),
            bytes::u64_le_bytes(r.manager) == v.bytes@.subrange(
                GAME_DATA_MANAGER_OFF as int,
                GAME_DATA_MANAGER_OFF as int + 8,
            ),
            r.name@ == v.bytes@.subrange(
                GAME_DATA_NAME_OFF as int,
                GAME_DATA_NAME_OFF as int + GAME_DATA_NAME_LEN as int,
            ),
            bytes::u32_le_bytes(r.name_length) == v.bytes@.subrange(
                GAME_DATA_NAME_LEN_OFF as int,
                GAME_DATA_NAME_LEN_OFF as int + 4,
            ),
    {
        GameData {
            manager: v.read_u64(GAME_DATA_MANAGER_OFF),
            name: v.read_bytes(GAME_DATA_NAME_OFF, GAME_DATA_NAME_LEN),
            name_length: v.read_u32(GAME_DATA_NAME_LEN_OFF),
        }
    }

    /// Whether the record's name buffer holds a usable entity name.
    pub fn has_valid_name(&self) -> (r: bool)
        ensures
            r == text::spec_valid_name(self.name@),
    {
        text::is_valid_name(self.name.as_slice())
    }
}

/// A faction record: its inline name buffer and the name's length.
pub struct Faction {
    pub name: Vec<u8>,
    pub name_length: u32,
}

impl Faction {
    /// The record's invariant: the inline name buffer is exactly 16 bytes.
    pub open spec fn wf(self) -> bool {
        self.name@.len() == FACTION_NAME_LEN
    }

    /// Decodes a faction record from a window over it.
    pub fn from_view(v: &MemoryView) -> (r: Faction)
        requires
            v.bytes@.len() >= FACTION_VIEW_LEN,
        ensures
            r.wf(),
            r.name@ == v.bytes@.subrange(
                FACTION_NAME_OFF as int,
                FACTION_NAME_OFF as int + FACTION_NAME_LEN as int,
            ),
            bytes::u32_le_bytes(r.name_length) == v.bytes@.subrange(
                FACTION_NAME_LEN_OFF as int,
                FACTION_NAME_LEN_OFF as int + 4,
            ),
    {
        Faction {
            name: v.read_bytes(FACTION_NAME_OFF, FACTION_NAME_LEN),
            name_length: v.read_u32(FACTION_NAME_LEN_OFF),
        }
    }
}

/// A character-stats record: the address of its medical system.
pub struct CharStats {
    pub medical: u64,
}

impl CharStats {
    /// Decodes a character-stats record from a window over it.
    pub fn from_view(v: &MemoryView) -> (r: CharStats)
        requires
            v.bytes@.len() >= CHAR_STATS_VIEW_LEN,
        ensures
            bytes::u64_le_bytes(r.medical) == v.bytes@.subrange(
                CHAR_STATS_MEDICAL_OFF as int,
                CHAR_STATS_MEDICAL_OFF as int + 8,
            ),
    {
        CharStats { medical: v.read_u64(CHAR_STATS_MEDICAL_OFF) }
    }
}

/// The NUL-terminated prefix of a raw name buffer — how a display name is
/// taken out of a record's inline buffer.
pub fn cstring_prefix(buf: &Vec<u8>) -> (r: Vec<u8>)
    ensures
        r@ == buf@.subrange(0, text::spec_nul_len(buf@) as int),
{
    let len = text::nul_len(buf.as_slice());
    proof {
        text::lemma_nul_len(buf@);
    }
    let mut r: Vec<u8> = Vec::new();
    let mut i: usize = 0;
    while i < len
        invariant
            i <= len,
            len <= buf@.len(),
            r@ == buf@.subrange(0, i as int),
        decreases len - i,
    {
        r.push(buf[i]);
        assert(r@ =~= buf@.subrange(0, i as int + 1));
        i = i + 1;
    }
    r
}

} // verus!
