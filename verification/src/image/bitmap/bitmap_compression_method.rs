use vstd::prelude::*;

verus! {

/// How the pixel data of a bitmap is compressed.
#[derive(Debug, Clone, Copy, PartialEq, Eq, Structural)]
pub enum BitmapCompressionMethod {
    Rgb,
    Rle8,
    Rle4,
    BitFields,
    Jpeg,
    Png,
    AlphaBitFields,
    Cmyk,
    CmykRle8,
    CmykRle4,
}

/// The code that a bitmap file stores for each compression method.
pub open spec fn compression_code(m: BitmapCompressionMethod) -> u32 {
    match m {
        BitmapCompressionMethod::Rgb => 0,
        BitmapCompressionMethod::Rle8 => 1,
        BitmapCompressionMethod::Rle4 => 2,
        BitmapCompressionMethod::BitFields => 3,
        BitmapCompressionMethod::Jpeg => 4,
        BitmapCompressionMethod::Png => 5,
        BitmapCompressionMethod::AlphaBitFields => 6,
        BitmapCompressionMethod::Cmyk => 11,
        BitmapCompressionMethod::CmykRle8 => 12,
        BitmapCompressionMethod::CmykRle4 => 13,
    }
}

/// Whether some compression method has this code.
pub open spec fn is_compression_code(code: int) -> bool {
    0 <= code <= 6 || 11 <= code <= 13
}

impl BitmapCompressionMethod {
    /// The compression method with the given code, if there is one.
    pub fn deserialize(compression_method: u32) -> (res: Option<Self>)
        ensures
            res is Some <==> is_compression_code(compression_method as int),
            res matches Some(m) ==> compression_code(m) == compression_method,
    {
        match compression_method {
            0 => Some(Self::Rgb),
            1 => Some(Self::Rle8),
            2 => Some(Self::Rle4),
            3 => Some(Self::BitFields),
            4 => Some(Self::Jpeg),
            5 => Some(Self::Png),
            6 => Some(Self::AlphaBitFields),
            11 => Some(Self::Cmyk),
            12 => Some(Self::CmykRle8),
            13 => Some(Self::CmykRle4),
            _ => None,
        }
    }

    /// The code of the compression method.
    pub fn serialize(&self) -> (res: u32)
        ensures
            res == compression_code(*self),
    {
        match self {
            Self::Rgb => 0,
            Self::Rle8 => 1,
            Self::Rle4 => 2,
            Self::BitFields => 3,
            Self::Jpeg => 4,
            Self::Png => 5,
            Self::AlphaBitFields => 6,
            Self::Cmyk => 11,
            Self::CmykRle8 => 12,
            Self::CmykRle4 => 13,
        }
    }
}

/// Each compression method is what its code deserializes to.
pub proof fn lemma_compression_code_round_trip(m: BitmapCompressionMethod)
    ensures
        is_compression_code(compression_code(m) as int),
        forall|o: BitmapCompressionMethod| compression_code(o) == compression_code(m) ==> o == m,
{
}

} // verus!
