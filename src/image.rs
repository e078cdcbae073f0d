//! Program images: big-endian 32-bit words, packed with no header.
use vstd::prelude::*;

verus! {

/// Why a byte sequence is not a program image.
#[derive(PartialEq, Eq, Structural, Clone, Copy, Debug)]
pub enum ImageError {
    /// No bytes at all.
    Empty,
    /// The number of bytes is not a multiple of four.
    Misaligned,
    /// More words than a program counter can address.
    TooLarge,
}

/// The big-endian word made of bytes `4 * i .. 4 * i + 3`.
pub open spec fn word_at(bytes: Seq<u8>, i: int) -> u32 {
    (bytes[4 * i] as int * 0x100_0000 + bytes[4 * i + 1] as int * 0x1_0000 + bytes[4 * i + 2] as int
        * 0x100 + bytes[4 * i + 3] as int) as u32
}

/// Splits a program image into its words.
pub fn load_image(bytes: &Vec<u8>) -> (r: Result<Vec<u32>, ImageError>)
    ensures
        bytes.len() == 0 ==> r == Err::<Vec<u32>, ImageError>(ImageError::Empty),
        bytes.len() > 0 && bytes.len() % 4 != 0 ==> r == Err::<Vec<u32>, ImageError>(
            ImageError::Misaligned,
        ),
        bytes.len() > 0 && bytes.len() % 4 == 0 && bytes.len() / 4 > u32::MAX ==> r == Err::<
            Vec<u32>,
            ImageError,
        >(ImageError::TooLarge),
        bytes.len() > 0 && bytes.len() % 4 == 0 && bytes.len() / 4 <= u32::MAX ==> r is Ok,
        r matches Ok(words) ==> {
            &&& words.len() == bytes.len() / 4
            &&& forall|i: int| 0 <= i < words.len() ==> #[trigger] words@[i] == word_at(bytes@, i)
        },
{
    if bytes.len() == 0 {
        return Err(ImageError::Empty);
    }
    if bytes.len() % 4 != 0 {
        return Err(ImageError::Misaligned);
    }
    let n = bytes.len() / 4;
    if n > u32::MAX as usize {
        return Err(ImageError::TooLarge);
    }
    let mut words: Vec<u32> = Vec::with_capacity(n);
    let mut i: usize = 0;
    while i < n
        invariant
            i <= n,
            n * 4 == bytes.len(),
            words.len() == i,
            forall|j: int| 0 <= j < i ==> #[trigger] words@[j] == word_at(bytes@, j),
        decreases n - i,
    {
        let k = 4 * i;
        let w = (bytes[k] as u32) * 0x100_0000 + (bytes[k + 1] as u32) * 0x1_0000 + (bytes[k + 2]
            as u32) * 0x100 + bytes[k + 3] as u32;
        words.push(w);
        i += 1;
    }
    Ok(words)
}

} // verus!
