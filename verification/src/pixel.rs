//! The packed cell: a material and a fill level inside one 64-bit word.
//!
//! ```text
//! byte 0: material type
//! byte 1: fill level
//! bytes 2..=7: reserved, zero
//! ```

use vstd::prelude::*;

verus! {

/// Selects byte 0 of a cell word.
pub const MATERIAL_TYPE_MASK: u64 = 0x0000_0000_0000_00FF;

/// Selects byte 1 of a cell word.
pub const FILL_LEVEL_MASK: u64 = 0x0000_0000_0000_FF00;

/// How far the fill level sits above bit 0.
pub const FILL_LEVEL_SHIFT: u64 = 8;

/// The substance in a cell.
#[derive(Clone, Copy, Debug, PartialEq, Eq, Structural)]
pub enum MaterialType {
    Sand,
    Water,
    Concrete,
    Nothing,
}

/// A cell taken apart into its fields.
#[derive(Clone, Copy, Debug, PartialEq, Eq, Structural)]
pub struct UnpackedPixel {
    pub material_type: MaterialType,
    pub fill_level: u8,
}

/// A colour with each channel in thousandths of full intensity.
#[derive(Clone, Copy, Debug, PartialEq, Eq, Structural)]
pub struct Colour {
    pub r: u16,
    pub g: u16,
    pub b: u16,
    pub a: u16,
}

/// One grid cell, packed.
#[derive(Clone, Copy, Debug, PartialEq, Eq, Structural)]
pub struct Pixel(pub u64);

impl MaterialType {
    /// The byte that stands for this material in a cell word.
    pub open spec fn code(self) -> u8 {
        match self {
            MaterialType::Nothing => 0,
            MaterialType::Sand => 1,
            MaterialType::Water => 2,
            MaterialType::Concrete => 3,
        }
    }

    /// Whether `u` stands for a material.
    pub open spec fn is_code(u: u8) -> bool {
        u <= 3
    }

    /// The material that `u` stands for.
    pub open spec fn of_code(u: u8) -> MaterialType
        recommends
            Self::is_code(u),
    {
        if u == 1 {
            MaterialType::Sand
        } else if u == 2 {
            MaterialType::Water
        } else if u == 3 {
            MaterialType::Concrete
        } else {
            MaterialType::Nothing
        }
    }

    /// Whether gravity acts on this material: sand and water fall, concrete
    /// stays where it was put, and there is nothing to move in an empty cell.
    pub open spec fn is_mobile(self) -> bool {
        self == MaterialType::Sand || self == MaterialType::Water
    }

    /// Whether this material also spreads sideways when that is switched on.
    pub open spec fn is_fluid(self) -> bool {
        self == MaterialType::Water
    }

    /// The display colour of each material.
    pub open spec fn colour(self) -> Colour {
        match self {
            MaterialType::Sand => Colour { r: 1000, g: 741, b: 291, a: 1000 },
            MaterialType::Water => Colour { r: 0, g: 0, b: 1000, a: 1000 },
            MaterialType::Concrete => Colour { r: 500, g: 500, b: 500, a: 1000 },
            MaterialType::Nothing => Colour { r: 1000, g: 1000, b: 1000, a: 1000 },
        }
    }

    /// The byte that stands for this material.
    pub fn to_u8(&self) -> (u: u8)
        ensures
            u == self.code(),
    {
        match self {
            MaterialType::Nothing => 0,
            MaterialType::Sand => 1,
            MaterialType::Water => 2,
            MaterialType::Concrete => 3,
        }
    }

    /// The material that `u` stands for. A byte that stands for none is a
    /// corrupted cell, which the caller has to rule out.
    pub fn from_u8(u: u8) -> (m: Self)
        requires
            Self::is_code(u),
        ensures
            m == Self::of_code(u),
            m.code() == u,
    {
        if u == 0 {
            MaterialType::Nothing
        } else if u == 1 {
            MaterialType::Sand
        } else if u == 2 {
            MaterialType::Water
        } else {
            MaterialType::Concrete
        }
    }

    /// The colour in which this material is shown.
    pub fn as_colour(&self) -> (c: Colour)
        ensures
            c == self.colour(),
    {
        match self {
            MaterialType::Sand => Colour { r: 1000, g: 741, b: 291, a: 1000 },
            MaterialType::Water => Colour { r: 0, g: 0, b: 1000, a: 1000 },
            MaterialType::Concrete => Colour { r: 500, g: 500, b: 500, a: 1000 },
            MaterialType::Nothing => Colour { r: 1000, g: 1000, b: 1000, a: 1000 },
        }
    }

    /// Whether this material is a fluid.
    pub fn fluid(&self) -> (b: bool)
        ensures
            b == self.is_fluid(),
    {
        match self {
            MaterialType::Water => true,
            _ => false,
        }
    }
}

impl Pixel {
    /// Byte 0 of the word.
    pub open spec fn material_byte(self) -> u8 {
        (self.0 % 256) as u8
    }

    /// Byte 1 of the word.
    pub open spec fn fill_byte(self) -> u8 {
        ((self.0 / 256) % 256) as u8
    }

    /// Whether byte 0 stands for a material.
    pub open spec fn is_valid(self) -> bool {
        MaterialType::is_code(self.material_byte())
    }

    /// Whether the cell holds no material.
    pub open spec fn is_empty(self) -> bool {
        self.material_byte() == 0
    }

    /// Whether the cell holds a material that moves.
    pub open spec fn is_mobile(self) -> bool {
        self.material_byte() == 1 || self.material_byte() == 2
    }

    /// The fields of a valid cell.
    pub open spec fn fields(self) -> UnpackedPixel
        recommends
            self.is_valid(),
    {
        UnpackedPixel {
            material_type: MaterialType::of_code(self.material_byte()),
            fill_level: self.fill_byte(),
        }
    }

    /// The word that holds `unpacked`: material in byte 0, fill level in
    /// byte 1, zero above.
    pub open spec fn word_of(unpacked: UnpackedPixel) -> u64 {
        (unpacked.material_type.code() + 256 * unpacked.fill_level) as u64
    }

    /// Byte 0 of the word, whether or not it stands for a material.
    pub fn material_type_raw(&self) -> (raw: u8)
        ensures
            raw == self.material_byte(),
    {
        let word = self.0;
        assert((word & 0xFF) == word % 256 && (word & 0xFF) < 256) by (bit_vector);
        (self.0 & MATERIAL_TYPE_MASK) as u8
    }

    /// Byte 1 of the word.
    pub fn fill_level_raw(&self) -> (raw: u8)
        ensures
            raw == self.fill_byte(),
    {
        let word = self.0;
        assert(((word & 0xFF00) >> 8) == (word / 256) % 256 && ((word & 0xFF00) >> 8) < 256)
            by (bit_vector);
        ((self.0 & FILL_LEVEL_MASK) >> FILL_LEVEL_SHIFT) as u8
    }

    /// Takes a cell apart. A cell whose byte 0 stands for no material is
    /// corrupted, which the caller has to rule out.
    pub fn unpack(&self) -> (unpacked: UnpackedPixel)
        requires
            self.is_valid(),
        ensures
            unpacked == self.fields(),
    {
        UnpackedPixel {
            material_type: MaterialType::from_u8(self.material_type_raw()),
            fill_level: self.fill_level_raw(),
        }
    }

    /// Packs a material and a fill level into one word.
    pub fn pack(unpacked: UnpackedPixel) -> (pixel: Self)
        ensures
            pixel.0 == Self::word_of(unpacked),
            pixel.is_valid(),
            pixel.fields() == unpacked,
    {
        let material: u64 = unpacked.material_type.to_u8() as u64;
        let fill: u64 = unpacked.fill_level as u64;
        let mut t: u64 = 0u64;
        t = t | material;
        let fill_level_raw: u64 = fill << FILL_LEVEL_SHIFT;
        t = t | fill_level_raw;
        assert(t == material + 256 * fill) by (bit_vector)
            requires
                material < 256,
                fill < 256,
                t == (0u64 | material) | (fill << 8),
        ;
        Self(t)
    }

    /// The empty cell: the zero word.
    pub fn blank() -> (pixel: Self)
        ensures
            pixel.0 == 0,
            pixel.is_valid(),
            pixel.is_empty(),
            pixel.fields() == (UnpackedPixel { material_type: MaterialType::Nothing, fill_level: 0 }),
    {
        Self(0u64)
    }
}

/// Packing and then unpacking gives back the material and the fill level,
/// whatever they are.
pub proof fn lemma_round_trip(unpacked: UnpackedPixel)
    ensures
        Pixel(Pixel::word_of(unpacked)).is_valid(),
        Pixel(Pixel::word_of(unpacked)).fields() == unpacked,
{
}

} // verus!
