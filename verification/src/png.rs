//! Character data embedded in PNG images: the byte-level scan for the
//! `tEXt` chunk that carries the base64-encoded card.

use vstd::prelude::*;
use vstd::string::*;
use vstd::utf8::{decode_utf8, valid_utf8};
use base64::Engine;

verus! {

/// Why extraction failed.
#[derive(Clone, PartialEq, Eq, Structural, Debug)]
pub enum PngMetadataError {
    /// The bytes are not a PNG image or a chunk is malformed.
    InvalidImageFormat,
    /// No `chara` or `ccv3` text chunk is present.
    CharaDataNotFound,
    /// The chunk's payload is not valid base64 or not valid text.
    DecodeFailed,
}

/// What `base64::engine::general_purpose::STANDARD.decode` returns for a
/// byte input; the result depends on the bytes alone.
pub uninterp spec fn b64_decoded(s: Seq<u8>) -> Option<Seq<u8>>;

/// Relies on base64's standard-alphabet engine: decodes, failing on any
/// input that is not canonical padded base64.
#[verifier::external_body]
fn base64_decode_bytes(b: &[u8]) -> (r: Option<Vec<u8>>)
    ensures
        match r {
            Some(v) => b64_decoded(b@) == Some(v@),
            None => b64_decoded(b@) is None,
        },
{
    match base64::engine::general_purpose::STANDARD.decode(b) {
        Ok(v) => Some(v),
        Err(_) => None,
    }
}

/// The keyword of a `tEXt` chunk body: the bytes before its first zero.
pub open spec fn keyword_end(data: Seq<u8>, i: int) -> Option<int>
    decreases data.len() - i,
{
    if i < 0 || i >= data.len() {
        None
    } else if data[i] == 0 {
        Some(i)
    } else {
        keyword_end(data, i + 1)
    }
}

/// Whether a `tEXt` chunk body names the character-card keyword `chara` or
/// `ccv3` before its first zero.
pub open spec fn is_chara_chunk(data: Seq<u8>) -> bool {
    match keyword_end(data, 0) {
        Some(z) => data.take(z) == chara_keyword() || data.take(z) == ccv3_keyword(),
        None => false,
    }
}

/// The bytes of `chara`.
pub open spec fn chara_keyword() -> Seq<u8> {
    seq![99u8, 104u8, 97u8, 114u8, 97u8]
}

/// The bytes of `ccv3`.
pub open spec fn ccv3_keyword() -> Seq<u8> {
    seq![99u8, 99u8, 118u8, 51u8]
}

/// The bytes of `tEXt`.
pub open spec fn text_chunk_type() -> Seq<u8> {
    seq![116u8, 69u8, 88u8, 116u8]
}

/// The payload of the first character-card text chunk at or after `pos`:
/// the bytes after the keyword's zero of the first `tEXt` chunk whose
/// keyword is `chara` or `ccv3`.
pub open spec fn chara_payload_from(bytes: Seq<u8>, pos: int) -> Option<Seq<u8>>
    decreases bytes.len() - pos,
{
    if pos < 8 || pos + 12 > bytes.len() {
        None
    } else {
        let len = chunk_len(bytes, pos);
        let ctype = bytes.subrange(pos + 4, pos + 8);
        let next = pos + 12 + len;
        if ctype == text_chunk_type() && pos + 8 + len <= bytes.len()
            && is_chara_chunk(bytes.subrange(pos + 8, pos + 8 + len)) {
            let data = bytes.subrange(pos + 8, pos + 8 + len);
            Some(data.skip(keyword_end(data, 0).unwrap() + 1))
        } else if next + 12 <= bytes.len() {
            chara_payload_from(bytes, next)
        } else {
            None
        }
    }
}

/// The big-endian length field of the chunk at `pos`.
pub open spec fn chunk_len(bytes: Seq<u8>, pos: int) -> int {
    (bytes[pos] as int) * 0x1000000 + (bytes[pos + 1] as int) * 0x10000
        + (bytes[pos + 2] as int) * 0x100 + (bytes[pos + 3] as int)
}

/// PNG-embedded character data.
pub struct PngMetadataUtils;

impl PngMetadataUtils {
    /// Extract the character card JSON embedded in a PNG: scan the chunks
    /// for a `tEXt` chunk keyed `chara` or `ccv3`, base64-decode its
    /// payload, and return the decoded text.
    #[verifier::rlimit(100)]
    pub fn read_character_data_from_bytes(png_bytes: &[u8]) -> (r: Result<String, PngMetadataError>)
        ensures
            png_bytes@.len() < 8 ==> r == Err::<String, PngMetadataError>(
                PngMetadataError::InvalidImageFormat),
            png_bytes@.len() >= 8 ==> match chara_payload_from(png_bytes@, 8) {
                Some(payload) => match b64_decoded(payload) {
                    Some(json) => if valid_utf8(json) {
                        r matches Ok(s) && s@ == decode_utf8(json)
                    } else {
                        r == Err::<String, PngMetadataError>(PngMetadataError::DecodeFailed)
                    },
                    None => r == Err::<String, PngMetadataError>(PngMetadataError::DecodeFailed),
                },
                None => r == Err::<String, PngMetadataError>(PngMetadataError::CharaDataNotFound),
            },
    {
        let n = png_bytes.len();
        if n < 8 {
            return Err(PngMetadataError::InvalidImageFormat);
        }
        let mut pos: usize = 8;
        loop
            invariant
                8 <= pos,
                n == png_bytes@.len(),
                n >= 8,
                chara_payload_from(png_bytes@, 8) == chara_payload_from(png_bytes@, pos as int),
            decreases n + 12 - pos,
        {
            if pos > n || n - pos < 12 {
                return Err(PngMetadataError::CharaDataNotFound);
            }
            let len_usize = chunk_len_exec(png_bytes, pos);
            proof {
                assert(len_usize < 0x1_0000_0000);
            }
            let is_text = png_bytes[pos + 4] == 116 && png_bytes[pos + 5] == 69
                && png_bytes[pos + 6] == 88 && png_bytes[pos + 7] == 116;
            proof {
                assert(png_bytes@.subrange(pos + 4, pos + 8) =~= seq![
                    png_bytes@[pos + 4], png_bytes@[pos + 5], png_bytes@[pos + 6],
                    png_bytes@[pos + 7]]);
            }
            if is_text && len_usize <= n - pos - 8 {
                let data_start = pos + 8;
                let data_end = pos + 8 + len_usize;
                let ghost data = png_bytes@.subrange(data_start as int, data_end as int);
                // find the keyword's terminating zero
                let mut z: usize = data_start;
                while z < data_end && png_bytes[z] != 0
                    invariant
                        data_start <= z <= data_end <= png_bytes@.len(),
                        data == png_bytes@.subrange(data_start as int, data_end as int),
                        keyword_end(data, 0) == keyword_end(data, z - data_start),
                        forall|k: int| 0 <= k < z - data_start ==> data[k] != 0,
                    decreases data_end - z,
                {
                    proof {
                        assert(data[z - data_start] == png_bytes@[z as int]);
                    }
                    z += 1;
                }
                if z < data_end {
                    proof {
                        assert(data[z - data_start] == png_bytes@[z as int]);
                        assert(keyword_end(data, 0) == Some(z - data_start));
                    }
                    let is_chara = z - data_start == 5 && png_bytes[data_start] == 99
                        && png_bytes[data_start + 1] == 104 && png_bytes[data_start + 2] == 97
                        && png_bytes[data_start + 3] == 114 && png_bytes[data_start + 4] == 97;
                    let is_ccv3 = z - data_start == 4 && png_bytes[data_start] == 99
                        && png_bytes[data_start + 1] == 99 && png_bytes[data_start + 2] == 118
                        && png_bytes[data_start + 3] == 51;
                    proof {
                        assert(data.take(z - data_start) =~= png_bytes@.subrange(
                            data_start as int, z as int));
                        if is_chara {
                            assert(data.take(z - data_start) =~= chara_keyword());
                        }
                        if is_ccv3 {
                            assert(data.take(z - data_start) =~= ccv3_keyword());
                        }
                        if !is_chara && !is_ccv3 {
                            if data.take(z - data_start) == chara_keyword() {
                                assert(z - data_start == 5);
                                assert(data[0] == 99 && data[1] == 104 && data[2] == 97
                                    && data[3] == 114 && data[4] == 97);
                            }
                            if data.take(z - data_start) == ccv3_keyword() {
                                assert(z - data_start == 4);
                                assert(data[0] == 99 && data[1] == 99 && data[2] == 118
                                    && data[3] == 51);
                            }
                        }
                    }
                    if is_chara || is_ccv3 {
                        let text = slice_range(png_bytes, z + 1, data_end);
                        proof {
                            assert(text@ =~= data.skip(z + 1 - data_start));
                        }
                        match base64_decode_bytes(text.as_slice()) {
                            Some(json_bytes) => {
                                match crate::tokens::bytes_to_string(json_bytes) {
                                    Some(s) => {
                                        return Ok(s);
                                    },
                                    None => {
                                        return Err(PngMetadataError::DecodeFailed);
                                    },
                                }
                            },
                            None => {
                                return Err(PngMetadataError::DecodeFailed);
                            },
                        }
                    }
                }
                proof {
                    assert(!is_chara_chunk(data));
                }
            }
            let ghost old_pos = pos as int;
            if len_usize > n - 12 || pos > n - 12 - len_usize {
                return Err(PngMetadataError::CharaDataNotFound);
            }
            pos = pos + 12 + len_usize;
        }
    }
}

/// The big-endian length field of the chunk at `pos`.
fn chunk_len_exec(bytes: &[u8], pos: usize) -> (r: usize)
    requires
        pos + 4 <= bytes@.len(),
    ensures
        r == chunk_len(bytes@, pos as int),
        r < 0x1_0000_0000,
{
    let b0 = bytes[pos] as usize;
    let b1 = bytes[pos + 1] as usize;
    let b2 = bytes[pos + 2] as usize;
    let b3 = bytes[pos + 3] as usize;
    b0 * 0x1000000 + b1 * 0x10000 + b2 * 0x100 + b3
}

/// A copy of a byte range.
fn slice_range(bytes: &[u8], from: usize, to: usize) -> (r: Vec<u8>)
    requires
        from <= to <= bytes@.len(),
    ensures
        r@ == bytes@.subrange(from as int, to as int),
{
    let mut out: Vec<u8> = Vec::new();
    let mut i: usize = from;
    while i < to
        invariant
            from <= i <= to <= bytes@.len(),
            out@ == bytes@.subrange(from as int, i as int),
        decreases to - i,
    {
        out.push(bytes[i]);
        proof {
            assert(out@ =~= bytes@.subrange(from as int, i + 1));
        }
        i += 1;
    }
    out
}

} // verus!
