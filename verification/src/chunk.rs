//! Chunk tags of the container format.

use vstd::prelude::*;

verus! {

/// All recognized RIFF chunk tags of a WebP file, with a catch-all variant
/// carrying the raw bytes of an unrecognized tag.
#[derive(Debug, Clone, Copy, PartialEq, Eq, Hash)]
pub enum WebPRiffChunk {
    RIFF,
    WEBP,
    VP8,
    VP8L,
    VP8X,
    ANIM,
    ANMF,
    ALPH,
    ICCP,
    EXIF,
    XMP,
    Unknown([u8; 4]),
}

/// The chunk tag denoted by the four bytes `a b c d`.
pub open spec fn spec_from_fourcc(cc: [u8; 4]) -> WebPRiffChunk {
    let a = cc@[0];
    let b = cc@[1];
    let c = cc@[2];
    let d = cc@[3];
    if a == 0x52u8 && b == 0x49u8 && c == 0x46u8 && d == 0x46u8 {
        WebPRiffChunk::RIFF
    } else if a == 0x57u8 && b == 0x45u8 && c == 0x42u8 && d == 0x50u8 {
        WebPRiffChunk::WEBP
    } else if a == 0x56u8 && b == 0x50u8 && c == 0x38u8 && d == 0x20u8 {
        WebPRiffChunk::VP8
    } else if a == 0x56u8 && b == 0x50u8 && c == 0x38u8 && d == 0x4Cu8 {
        WebPRiffChunk::VP8L
    } else if a == 0x56u8 && b == 0x50u8 && c == 0x38u8 && d == 0x58u8 {
        WebPRiffChunk::VP8X
    } else if a == 0x41u8 && b == 0x4Eu8 && c == 0x49u8 && d == 0x4Du8 {
        WebPRiffChunk::ANIM
    } else if a == 0x41u8 && b == 0x4Eu8 && c == 0x4Du8 && d == 0x46u8 {
        WebPRiffChunk::ANMF
    } else if a == 0x41u8 && b == 0x4Cu8 && c == 0x50u8 && d == 0x48u8 {
        WebPRiffChunk::ALPH
    } else if a == 0x49u8 && b == 0x43u8 && c == 0x43u8 && d == 0x50u8 {
        WebPRiffChunk::ICCP
    } else if a == 0x45u8 && b == 0x58u8 && c == 0x49u8 && d == 0x46u8 {
        WebPRiffChunk::EXIF
    } else if a == 0x58u8 && b == 0x4Du8 && c == 0x50u8 && d == 0x20u8 {
        WebPRiffChunk::XMP
    } else {
        WebPRiffChunk::Unknown(cc)
    }
}

impl WebPRiffChunk {
    /// Recognizes a chunk tag from its four raw bytes.
    pub fn from_fourcc(chunk_fourcc: [u8; 4]) -> (r: Self)
        ensures
            r == spec_from_fourcc(chunk_fourcc),
    {
        let a = chunk_fourcc[0];
        let b = chunk_fourcc[1];
        let c = chunk_fourcc[2];
        let d = chunk_fourcc[3];
        if a == 0x52 && b == 0x49 && c == 0x46 && d == 0x46 {
            WebPRiffChunk::RIFF
        } else if a == 0x57 && b == 0x45 && c == 0x42 && d == 0x50 {
            WebPRiffChunk::WEBP
        } else if a == 0x56 && b == 0x50 && c == 0x38 && d == 0x20 {
            WebPRiffChunk::VP8
        } else if a == 0x56 && b == 0x50 && c == 0x38 && d == 0x4C {
            WebPRiffChunk::VP8L
        } else if a == 0x56 && b == 0x50 && c == 0x38 && d == 0x58 {
            WebPRiffChunk::VP8X
        } else if a == 0x41 && b == 0x4E && c == 0x49 && d == 0x4D {
            WebPRiffChunk::ANIM
        } else if a == 0x41 && b == 0x4E && c == 0x4D && d == 0x46 {
            WebPRiffChunk::ANMF
        } else if a == 0x41 && b == 0x4C && c == 0x50 && d == 0x48 {
            WebPRiffChunk::ALPH
        } else if a == 0x49 && b == 0x43 && c == 0x43 && d == 0x50 {
            WebPRiffChunk::ICCP
        } else if a == 0x45 && b == 0x58 && c == 0x49 && d == 0x46 {
            WebPRiffChunk::EXIF
        } else if a == 0x58 && b == 0x4D && c == 0x50 && d == 0x20 {
            WebPRiffChunk::XMP
        } else {
            WebPRiffChunk::Unknown(chunk_fourcc)
        }
    }

    /// The four raw bytes of this chunk tag.
    pub open spec fn spec_to_fourcc(self) -> Seq<u8> {
        match self {
            WebPRiffChunk::RIFF => seq![0x52u8, 0x49u8, 0x46u8, 0x46u8],
            WebPRiffChunk::WEBP => seq![0x57u8, 0x45u8, 0x42u8, 0x50u8],
            WebPRiffChunk::VP8 => seq![0x56u8, 0x50u8, 0x38u8, 0x20u8],
            WebPRiffChunk::VP8L => seq![0x56u8, 0x50u8, 0x38u8, 0x4Cu8],
            WebPRiffChunk::VP8X => seq![0x56u8, 0x50u8, 0x38u8, 0x58u8],
            WebPRiffChunk::ANIM => seq![0x41u8, 0x4Eu8, 0x49u8, 0x4Du8],
            WebPRiffChunk::ANMF => seq![0x41u8, 0x4Eu8, 0x4Du8, 0x46u8],
            WebPRiffChunk::ALPH => seq![0x41u8, 0x4Cu8, 0x50u8, 0x48u8],
            WebPRiffChunk::ICCP => seq![0x49u8, 0x43u8, 0x43u8, 0x50u8],
            WebPRiffChunk::EXIF => seq![0x45u8, 0x58u8, 0x49u8, 0x46u8],
            WebPRiffChunk::XMP => seq![0x58u8, 0x4Du8, 0x50u8, 0x20u8],
            WebPRiffChunk::Unknown(cc) => cc@,
        }
    }

    /// Writes a chunk tag back out as its four raw bytes.
    pub fn to_fourcc(self) -> (r: [u8; 4])
        ensures
            r@ == self.spec_to_fourcc(),
    {
        let r: [u8; 4] = match self {
            WebPRiffChunk::RIFF => [0x52, 0x49, 0x46, 0x46],
            WebPRiffChunk::WEBP => [0x57, 0x45, 0x42, 0x50],
            WebPRiffChunk::VP8 => [0x56, 0x50, 0x38, 0x20],
            WebPRiffChunk::VP8L => [0x56, 0x50, 0x38, 0x4C],
            WebPRiffChunk::VP8X => [0x56, 0x50, 0x38, 0x58],
            WebPRiffChunk::ANIM => [0x41, 0x4E, 0x49, 0x4D],
            WebPRiffChunk::ANMF => [0x41, 0x4E, 0x4D, 0x46],
            WebPRiffChunk::ALPH => [0x41, 0x4C, 0x50, 0x48],
            WebPRiffChunk::ICCP => [0x49, 0x43, 0x43, 0x50],
            WebPRiffChunk::EXIF => [0x45, 0x58, 0x49, 0x46],
            WebPRiffChunk::XMP => [0x58, 0x4D, 0x50, 0x20],
            WebPRiffChunk::Unknown(cc) => cc,
        };
        proof {
            assert(r@ =~= self.spec_to_fourcc());
        }
        r
    }

    /// True of the catch-all variant only.
    pub fn is_unknown(&self) -> (r: bool)
        ensures
            r == (self is Unknown),
    {
        matches!(self, WebPRiffChunk::Unknown(_))
    }
}

/// Round-trip of tag recognition: writing a recognized tag back out gives the
/// four bytes it was recognized from.
pub proof fn lemma_fourcc_round_trip(cc: [u8; 4])
    ensures
        spec_from_fourcc(cc).spec_to_fourcc() =~= cc@,
{
}

} // verus!
