//! The optional footer at the end of a TGA file.

use vstd::prelude::*;
use crate::tga::header::read_le_u16;

verus! {

/// The length of the footer in bytes: two 32-bit offsets and the signature.
pub const FOOTER_LEN: usize = 26;

/// The length of the signature in bytes.
pub const SIGNATURE_LEN: usize = 18;

/// The signature that ends a file with a footer: the text
/// `TRUEVISION-XFILE.` and a zero byte.
pub open spec fn signature() -> Seq<u8> {
    seq![
        84u8, 82u8, 85u8, 69u8, 86u8, 73u8, 83u8, 73u8, 79u8, 78u8, 45u8, 88u8, 70u8, 73u8, 76u8,
        69u8, 46u8, 0u8,
    ]
}

/// Whether `input` ends with a footer: it is long enough to hold one and
/// its last bytes are the signature.
pub open spec fn has_footer(input: Seq<u8>) -> bool {
    input.len() >= FOOTER_LEN && input.subrange(
        input.len() - SIGNATURE_LEN,
        input.len() as int,
    ) == signature()
}

/// The number of bytes at the end of `input` that belong to a footer: its
/// length when there is one, and none otherwise.
pub open spec fn footer_len(input: Seq<u8>) -> int {
    if has_footer(input) {
        FOOTER_LEN as int
    } else {
        0
    }
}

/// The 32-bit number whose little-endian bytes stand at `at` in `s`.
pub open spec fn le_u32(s: Seq<u8>, at: int) -> u32 {
    (s[at] + 256 * s[at + 1] + 65536 * s[at + 2] + 16777216 * s[at + 3]) as u32
}

/// The footer of a TGA file. Its two offsets say where the extension area
/// and the developer directory begin in the file, or are zero; neither of
/// the two is read here.
#[derive(Copy, Clone, Eq, PartialEq, Debug)]
pub struct TgaFooter {
    pub extension_area_offset: u32,
    pub developer_directory_offset: u32,
}

impl TgaFooter {
    /// Looks for a footer at the end of `input`.
    pub fn parse(input: &[u8]) -> (r: Option<TgaFooter>)
        ensures
            r is Some <==> has_footer(input@),
            r matches Some(footer) ==> {
                &&& footer.extension_area_offset == le_u32(input@, input@.len() - FOOTER_LEN)
                &&& footer.developer_directory_offset == le_u32(
                    input@,
                    input@.len() - FOOTER_LEN + 4,
                )
            },
    {
        let n = input.len();
        if n < FOOTER_LEN {
            return None;
        }
        let s = n - SIGNATURE_LEN;
        let ghost tail = input@.subrange(s as int, n as int);
        let ghost sig = signature();
        assert(tail.len() == 18 && sig.len() == 18);
        assert(forall|i: int| 0 <= i < 18 ==> tail[i] == input@[s + i]);
        let matches = input[s] == 84 && input[s + 1] == 82 && input[s + 2] == 85 && input[s + 3]
            == 69 && input[s + 4] == 86 && input[s + 5] == 73 && input[s + 6] == 83 && input[s
            + 7] == 73 && input[s + 8] == 79 && input[s + 9] == 78 && input[s + 10] == 45
            && input[s + 11] == 88 && input[s + 12] == 70 && input[s + 13] == 73 && input[s + 14]
            == 76 && input[s + 15] == 69 && input[s + 16] == 46 && input[s + 17] == 0;
        if !matches {
            assert(tail != sig) by {
                if tail == sig {
                    assert(tail[0] == sig[0] && tail[1] == sig[1] && tail[2] == sig[2] && tail[3]
                        == sig[3] && tail[4] == sig[4] && tail[5] == sig[5] && tail[6] == sig[6]
                        && tail[7] == sig[7] && tail[8] == sig[8] && tail[9] == sig[9] && tail[10]
                        == sig[10] && tail[11] == sig[11] && tail[12] == sig[12] && tail[13]
                        == sig[13] && tail[14] == sig[14] && tail[15] == sig[15] && tail[16]
                        == sig[16] && tail[17] == sig[17]);
                }
            }
            return None;
        }
        assert(tail =~= sig);
        let start = n - FOOTER_LEN;
        let e_lo: u32 = read_le_u16(input, start) as u32;
        let e_hi: u32 = read_le_u16(input, start + 2) as u32;
        let d_lo: u32 = read_le_u16(input, start + 4) as u32;
        let d_hi: u32 = read_le_u16(input, start + 6) as u32;
        Some(
            TgaFooter {
                extension_area_offset: e_lo + 65536 * e_hi,
                developer_directory_offset: d_lo + 65536 * d_hi,
            },
        )
    }

    /// The number of bytes that the footer takes at the end of the file.
    pub fn length(&self) -> (r: usize)
        ensures
            r == FOOTER_LEN,
    {
        FOOTER_LEN
    }
}

} // verus!
