use vstd::prelude::*;

verus! {

/// ROM classification.
#[derive(Copy, Clone, Debug, PartialEq, Eq, Hash, Structural)]
pub enum ROMType {
    Unknown,
    LoROM,
    HiROM,
    ExLoROM,
    ExHiROM,
}

/// ROM's title max length.
pub const TITLE_LEN: usize = 21;

/// Address of the ROM's title.
pub const TITLE: usize = 0xFFC0;

/// Address of the markup byte.
pub const MARKUP: usize = 0xFFD5;

/// Address of the ROM's type byte.
pub const TYPE: usize = 0xFFD6;

/// Address of the ROM's size byte.
pub const SIZE: usize = 0xFFD7;

/// Address of the NMI vector.
pub const NMI: usize = 0xFFEA;

/// Address of the RESET vector.
pub const RESET: usize = 0xFFFC;

/// SNES address to file offset, for each type of ROM.
pub open spec fn translate_spec(rom_type: ROMType, a: usize) -> usize {
    match rom_type {
        ROMType::LoROM => ((a & 0x7F0000) >> 1) | (a & 0x7FFF),
        ROMType::HiROM => a & 0x3FFFFF,
        ROMType::ExLoROM => if a & 0x800000 != 0 {
            ((a & 0x7F0000) >> 1) | (a & 0x7FFF)
        } else {
            ((a & 0x7F0000) >> 1) | ((a & 0x7FFF) + 0x400000) as usize
        },
        ROMType::ExHiROM => if a & 0xC00000 != 0xC00000 {
            (a & 0x3FFFFF) | 0x400000
        } else {
            a & 0x3FFFFF
        },
        ROMType::Unknown => a,
    }
}

/// Whether an address lies in RAM.
pub open spec fn is_ram_spec(a: usize) -> bool {
    a <= 0x001FFF || (0x7E0000 <= a && a <= 0x7FFFFF)
}

/// Weight of a title byte: graphic or whitespace 2, NUL 1, anything else disqualifies.
pub open spec fn title_byte_weight(c: u8) -> Option<nat> {
    if c == 0 {
        Some(1)
    } else if (0x21 <= c && c <= 0x7E) || c == 0x20 || c == 0x09 || c == 0x0A || c == 0x0C || c
        == 0x0D {
        Some(2)
    } else {
        None
    }
}

/// Score of a candidate title: the sum of the weights, or 0 if a byte disqualifies it.
pub open spec fn title_score(s: Seq<u8>) -> nat
    decreases s.len(),
{
    if s.len() == 0 {
        0
    } else {
        match (title_byte_weight(s.last()), title_score(s.drop_last())) {
            (Some(w), t) => if title_disqualified(s.drop_last()) {
                0
            } else {
                t + w
            },
            (None, _) => 0,
        }
    }
}

/// Whether some byte of a candidate title disqualifies it.
pub open spec fn title_disqualified(s: Seq<u8>) -> bool {
    exists|i: int| 0 <= i < s.len() && title_byte_weight(#[trigger] s[i]) is None
}

/// Score of the title region at file offset `base`; 0 when it lies beyond the data.
pub open spec fn region_score(data: Seq<u8>, base: int) -> nat {
    if base + 21 <= data.len() {
        title_score(data.subrange(base, base + 21))
    } else {
        0
    }
}

/// The main type of a ROM: LoROM unless the HiROM title scores higher.
pub open spec fn main_type(data: Seq<u8>) -> ROMType {
    if data.len() <= 0x8000 {
        ROMType::LoROM
    } else if region_score(data, 0xFFC0) > region_score(data, 0x7FC0) {
        ROMType::HiROM
    } else {
        ROMType::LoROM
    }
}

/// The type of a ROM: its main type, extended when the markup byte says so.
pub open spec fn rom_type_of(data: Seq<u8>) -> ROMType {
    let t = main_type(data);
    let off = translate_spec(t, 0xFFD5) as int;
    if off < data.len() {
        let markup = data[off];
        if t == ROMType::LoROM && markup & 0b010 != 0 {
            ROMType::ExLoROM
        } else if t == ROMType::HiROM && markup & 0b100 != 0 {
            ROMType::ExHiROM
        } else {
            t
        }
    } else {
        t
    }
}

/// Relies on `String::from_iter`: the string made of the given characters.
#[verifier::external_body]
fn string_of_chars(v: &Vec<char>) -> (r: String)
    ensures
        r@ == v@,
{
    String::from_iter(v.iter())
}

/// Structure representing a SNES ROM.
#[derive(Clone, Debug)]
pub struct ROM {
    pub path: String,
    pub data: Vec<u8>,
    pub rom_type: ROMType,
}

impl ROM {
    /// Whether a byte can be read at the given SNES address.
    pub open spec fn readable(self, a: usize) -> bool {
        self.rom_type != ROMType::Unknown && translate_spec(self.rom_type, a) < self.data@.len()
    }

    /// The byte at the given SNES address.
    pub open spec fn byte_at(self, a: usize) -> u8 {
        self.data@[translate_spec(self.rom_type, a) as int]
    }

    /// The 16-bit little-endian word at the given SNES address.
    pub open spec fn word_at(self, a: usize) -> u16 {
        (self.byte_at((a + 1) as usize) as int * 256 + self.byte_at(a) as int) as u16
    }

    /// The 24-bit little-endian value at the given SNES address.
    pub open spec fn long_at(self, a: usize) -> usize {
        (self.byte_at((a + 2) as usize) as int * 0x10000 + self.word_at(a) as int) as usize
    }

    /// Instantiate a new empty ROM object.
    pub fn new() -> (r: ROM)
        ensures
            r.path@.len() == 0,
            r.data@.len() == 0,
            r.rom_type == ROMType::Unknown,
    {
        ROM { path: String::new(), data: Vec::new(), rom_type: ROMType::Unknown }
    }

    /// Instantiate a ROM from the contents of its file, detecting its type.
    pub fn from(path: String, data: Vec<u8>) -> (r: ROM)
        ensures
            r.path@ == path@,
            r.data@ == data@,
            r.rom_type == rom_type_of(data@),
    {
        let mut rom = ROM { path, data, rom_type: ROMType::Unknown };
        rom.rom_type = rom.discover_type();
        rom.rom_type = rom.discover_subtype();
        rom
    }

    /// Return the path of the ROM's file.
    pub fn path(&self) -> (r: &String)
        ensures
            r@ == self.path@,
    {
        &self.path
    }

    /// Return the type of the ROM.
    pub fn rom_type(&self) -> (r: ROMType)
        ensures
            r == self.rom_type,
    {
        self.rom_type
    }

    /// Whether a byte can be read at the given SNES address.
    pub fn is_readable(&self, address: usize) -> (r: bool)
        ensures
            r == self.readable(address),
    {
        match self.rom_type {
            ROMType::Unknown => false,
            _ => self.translate(address) < self.data.len(),
        }
    }

    /// Read a byte from the ROM.
    pub fn read_byte(&self, address: usize) -> (r: u8)
        requires
            self.readable(address),
        ensures
            r == self.byte_at(address),
    {
        self.data[self.translate(address)]
    }

    /// Read a word (16 bits, little-endian) from the ROM.
    pub fn read_word(&self, address: usize) -> (r: u16)
        requires
            address < usize::MAX,
            self.readable(address),
            self.readable((address + 1) as usize),
        ensures
            r == self.word_at(address),
    {
        let lo = self.read_byte(address) as u16;
        let hi = self.read_byte(address + 1) as u16;
        assert((hi << 8u16) | lo == hi * 256 + lo) by (bit_vector)
            requires
                hi <= 0xFF,
                lo <= 0xFF,
        ;
        (hi << 8) | lo
    }

    /// Read an address (24 bits, little-endian) from the ROM.
    pub fn read_address(&self, address: usize) -> (r: usize)
        requires
            address < usize::MAX - 1,
            self.readable(address),
            self.readable((address + 1) as usize),
            self.readable((address + 2) as usize),
        ensures
            r == self.long_at(address),
    {
        let lo = self.read_word(address) as u32;
        let hi = self.read_byte(address + 2) as u32;
        assert((hi << 16u32) | lo == hi * 0x10000 + lo) by (bit_vector)
            requires
                hi <= 0xFF,
                lo <= 0xFFFF,
        ;
        ((hi << 16) | lo) as usize
    }

    /// Size of the ROM in bytes, as indicated by the header.
    pub fn size(&self) -> (r: usize)
        requires
            self.readable(SIZE),
            0x400 * vstd::arithmetic::power2::pow2(self.byte_at(SIZE) as nat) <= usize::MAX,
        ensures
            r == 0x400 * vstd::arithmetic::power2::pow2(self.byte_at(SIZE) as nat),
    {
        let b = self.read_byte(SIZE);
        let mut r: usize = 0x400;
        let mut i: u8 = 0;
        proof {
            vstd::arithmetic::power2::lemma2_to64();
        }
        while i < b
            invariant
                i <= b,
                b == self.byte_at(SIZE),
                0x400 * vstd::arithmetic::power2::pow2(b as nat) <= usize::MAX,
                r == 0x400 * vstd::arithmetic::power2::pow2(i as nat),
            decreases b - i,
        {
            proof {
                vstd::arithmetic::power2::lemma_pow2_unfold((i + 1) as nat);
                if i + 1 < b {
                    vstd::arithmetic::power2::lemma_pow2_strictly_increases((i + 1) as nat, b as nat);
                }
            }
            r = r * 2;
            i += 1;
        }
        r
    }

    /// Size of the ROM, as measured by the size of the file.
    pub fn actual_size(&self) -> (r: usize)
        ensures
            r == self.data@.len(),
    {
        self.data.len()
    }

    /// Return the ROM's title: the header's title bytes up to the first NUL.
    pub fn title(&self) -> (r: String)
        requires
            forall|i: int| 0 <= i < 21 ==> #[trigger] self.readable((TITLE + i) as usize),
        ensures
            r@.len() <= 21,
            forall|i: int| 0 <= i < r@.len() ==> r@[i] == (self.byte_at((TITLE + i) as usize) as char)
                && self.byte_at((TITLE + i) as usize) != 0,
            r@.len() < 21 ==> self.byte_at((TITLE + r@.len()) as usize) == 0,
    {
        let mut title: Vec<char> = Vec::new();
        let mut i: usize = 0;
        let mut stop = false;
        while i < TITLE_LEN && !stop
            invariant
                i <= 21,
                title@.len() == i,
                forall|j: int| 0 <= j < 21 ==> #[trigger] self.readable((TITLE + j) as usize),
                forall|j: int|
                    0 <= j < i ==> title@[j] == (self.byte_at((TITLE + j) as usize) as char)
                        && self.byte_at((TITLE + j) as usize) != 0,
                stop ==> i < 21 && self.byte_at((TITLE + i) as usize) == 0,
            decreases 21 - i + (if stop { 0int } else { 1int }),
        {
            let c = self.read_byte(TITLE + i);
            if c == 0 {
                stop = true;
            } else {
                title.push(c as char);
                i += 1;
            }
        }
        string_of_chars(&title)
    }

    /// Return the reset vector (ROM's entry point).
    pub fn reset_vector(&self) -> (r: usize)
        requires
            self.readable(RESET),
            self.readable((RESET + 1) as usize),
        ensures
            r == self.word_at(RESET) as usize,
    {
        self.read_word(RESET) as usize
    }

    /// Return the NMI vector (VBLANK handler).
    pub fn nmi_vector(&self) -> (r: usize)
        requires
            self.readable(NMI),
            self.readable((NMI + 1) as usize),
        ensures
            r == self.word_at(NMI) as usize,
    {
        self.read_word(NMI) as usize
    }

    /// Return true if the address is in RAM, false otherwise.
    pub fn is_ram(address: usize) -> (r: bool)
        ensures
            r == is_ram_spec(address),
    {
        (address <= 0x001FFF) || (0x7E0000 <= address && address <= 0x7FFFFF)
    }

    /// Translate an address from SNES to PC (file offset).
    pub fn translate(&self, address: usize) -> (r: usize)
        ensures
            r == translate_spec(self.rom_type, address),
    {
        let a = address;
        match self.rom_type {
            ROMType::LoROM => ((a & 0x7F0000) >> 1) | (a & 0x7FFF),
            ROMType::HiROM => a & 0x3FFFFF,
            ROMType::ExLoROM => {
                if a & 0x800000 != 0 {
                    ((a & 0x7F0000) >> 1) | (a & 0x7FFF)
                } else {
                    assert(a & 0x7FFF <= 0x7FFF) by (bit_vector);
                    ((a & 0x7F0000) >> 1) | ((a & 0x7FFF) + 0x400000)
                }
            },
            ROMType::ExHiROM => {
                if (a & 0xC00000) != 0xC00000 {
                    (a & 0x3FFFFF) | 0x400000
                } else {
                    a & 0x3FFFFF
                }
            },
            ROMType::Unknown => a,
        }
    }

    /// Discover the main ROM type by scoring the two title locations.
    fn discover_type(&self) -> (r: ROMType)
        ensures
            r == main_type(self.data@),
    {
        if self.data.len() <= 0x8000 {
            return ROMType::LoROM;
        }
        let lorom = self.type_score(0xFFC0 - 0x8000);
        let hirom = self.type_score(0xFFC0);
        if hirom > lorom {
            ROMType::HiROM
        } else {
            ROMType::LoROM
        }
    }

    /// Discover the ROM subtype from the markup byte.
    fn discover_subtype(&self) -> (r: ROMType)
        requires
            self.rom_type == main_type(self.data@),
        ensures
            r == rom_type_of(self.data@),
    {
        if !self.is_readable(MARKUP) {
            return self.rom_type;
        }
        let markup = self.read_byte(MARKUP);
        match self.rom_type {
            ROMType::LoROM if markup & 0b010 != 0 => ROMType::ExLoROM,
            ROMType::HiROM if markup & 0b100 != 0 => ROMType::ExHiROM,
            _ => self.rom_type,
        }
    }

    /// Estimate the likelihood that the title region at file offset `base`
    /// holds the title.
    fn type_score(&self, base: usize) -> (r: u8)
        requires
            base <= 0xFFC0,
        ensures
            r as nat == region_score(self.data@, base as int),
    {
        if base + 21 > self.data.len() {
            return 0;
        }
        let ghost region = self.data@.subrange(base as int, base + 21);
        let mut score: u8 = 0;
        let mut i: usize = 0;
        while i < TITLE_LEN
            invariant
                base <= 0xFFC0,
                base + 21 <= self.data@.len(),
                region == self.data@.subrange(base as int, base + 21),
                i <= 21,
                !title_disqualified(region.subrange(0, i as int)),
                score as nat == title_score(region.subrange(0, i as int)),
                score <= 2 * i,
            decreases 21 - i,
        {
            let c = self.data[base + i];
            let ghost prefix = region.subrange(0, i as int);
            let ghost next = region.subrange(0, i + 1);
            assert(next.drop_last() =~= prefix);
            assert(next.last() == c);
            if c == 0x00 {
                score += 1;
            } else if (c >= 0x21 && c <= 0x7E) || c == 0x20 || c == 0x09 || c == 0x0A || c == 0x0C
                || c == 0x0D {
                score += 2;
            } else {
                proof {
                    lemma_disqualified_prefix(region, i as int);
                }
                return 0;
            }
            proof {
                assert(!title_disqualified(next)) by {
                    if title_disqualified(next) {
                        let k = choose|k: int|
                            0 <= k < next.len() && title_byte_weight(#[trigger] next[k]) is None;
                        if k < i {
                            assert(next[k] == prefix[k]);
                        }
                    }
                }
            }
            i += 1;
        }
        assert(region.subrange(0, 21) =~= region);
        score
    }
}

/// A title with a disqualifying byte scores 0, whatever follows it.
proof fn lemma_disqualified_prefix(s: Seq<u8>, i: int)
    requires
        0 <= i < s.len(),
        title_byte_weight(s[i]) is None,
    ensures
        title_score(s) == 0,
    decreases s.len(),
{
    if i == s.len() - 1 {
    } else {
        lemma_disqualified_prefix(s.drop_last(), i);
        assert(title_disqualified(s.drop_last())) by {
            assert(s.drop_last()[i] == s[i]);
        }
    }
}

} // verus!
