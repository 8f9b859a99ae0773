//! The persisted chunk payload encoding: a word array is laid out as
//! little-endian bytes, compressed as a ZLIB stream, and written as
//! standard base64 text. Decoding inverts each step exactly.

use vstd::prelude::*;

verus! {

/// The little-endian bytes of one 32-bit word, lowest byte first.
pub open spec fn le_bytes_of_word(w: u32) -> Seq<u8> {
    seq![
        (w & 0xFF) as u8,
        ((w >> 8) & 0xFF) as u8,
        ((w >> 16) & 0xFF) as u8,
        ((w >> 24) & 0xFF) as u8,
    ]
}

/// The little-endian byte layout of a word array, in order.
pub open spec fn le_bytes_of(ws: Seq<u32>) -> Seq<u8>
    decreases ws.len(),
{
    if ws.len() == 0 {
        Seq::empty()
    } else {
        le_bytes_of(ws.drop_last()) + le_bytes_of_word(ws.last())
    }
}

/// The word read back from four little-endian bytes.
pub open spec fn word_of_le(b0: u8, b1: u8, b2: u8, b3: u8) -> u32 {
    (b0 as u32) | ((b1 as u32) << 8) | ((b2 as u32) << 16) | ((b3 as u32) << 24)
}

/// The byte layout of a word array is four bytes per word.
pub proof fn lemma_le_bytes_len(ws: Seq<u32>)
    ensures
        le_bytes_of(ws).len() == 4 * ws.len(),
    decreases ws.len(),
{
    if ws.len() > 0 {
        lemma_le_bytes_len(ws.drop_last());
    }
}

/// Reading four laid-out bytes gives the word back.
proof fn lemma_word_le_roundtrip(w: u32)
    ensures
        word_of_le(
            (w & 0xFF) as u8,
            ((w >> 8) & 0xFF) as u8,
            ((w >> 16) & 0xFF) as u8,
            ((w >> 24) & 0xFF) as u8,
        ) == w,
{
    assert((((w & 0xFF) as u8) as u32) | ((((w >> 8) & 0xFF) as u8) as u32) << 8 | ((((w >> 16)
        & 0xFF) as u8) as u32) << 16 | ((((w >> 24) & 0xFF) as u8) as u32) << 24 == w)
        by (bit_vector);
}

/// Two word arrays with the same byte layout are the same array.
pub proof fn lemma_le_bytes_injective(x: Seq<u32>, y: Seq<u32>)
    requires
        x.len() == y.len(),
        le_bytes_of(x) == le_bytes_of(y),
    ensures
        x == y,
    decreases x.len(),
{
    if x.len() > 0 {
        let x0 = x.drop_last();
        let y0 = y.drop_last();
        lemma_le_bytes_len(x0);
        lemma_le_bytes_len(y0);
        assert(le_bytes_of(x0) =~= le_bytes_of(x).take(4 * x0.len() as int));
        assert(le_bytes_of(y0) =~= le_bytes_of(y).take(4 * y0.len() as int));
        lemma_le_bytes_injective(x0, y0);
        let wx = x.last();
        let wy = y.last();
        assert(le_bytes_of_word(wx) =~= le_bytes_of(x).skip(4 * x0.len() as int));
        assert(le_bytes_of_word(wy) =~= le_bytes_of(y).skip(4 * y0.len() as int));
        assert(le_bytes_of_word(wx)[0] == (wx & 0xFF) as u8 && le_bytes_of_word(wx)[1] == ((wx
            >> 8) & 0xFF) as u8 && le_bytes_of_word(wx)[2] == ((wx >> 16) & 0xFF) as u8
            && le_bytes_of_word(wx)[3] == ((wx >> 24) & 0xFF) as u8);
        assert(le_bytes_of_word(wy)[0] == (wy & 0xFF) as u8 && le_bytes_of_word(wy)[1] == ((wy
            >> 8) & 0xFF) as u8 && le_bytes_of_word(wy)[2] == ((wy >> 16) & 0xFF) as u8
            && le_bytes_of_word(wy)[3] == ((wy >> 24) & 0xFF) as u8);
        assert(le_bytes_of_word(wx)[0] == le_bytes_of_word(wy)[0]);
        assert(le_bytes_of_word(wx)[1] == le_bytes_of_word(wy)[1]);
        assert(le_bytes_of_word(wx)[2] == le_bytes_of_word(wy)[2]);
        assert(le_bytes_of_word(wx)[3] == le_bytes_of_word(wy)[3]);
        assert((wx & 0xFF) as u8 == (wy & 0xFF) as u8 && ((wx >> 8) & 0xFF) as u8 == ((wy >> 8)
            & 0xFF) as u8 && ((wx >> 16) & 0xFF) as u8 == ((wy >> 16) & 0xFF) as u8 && ((wx >> 24)
            & 0xFF) as u8 == ((wy >> 24) & 0xFF) as u8 ==> wx == wy) by (bit_vector);
        assert(wx == wy);
        assert(forall|i: int| 0 <= i < x.len() - 1 ==> x[i] == x0[i] && y[i] == y0[i]);
        assert(x[x.len() - 1] == wx && y[y.len() - 1] == wy);
        assert(x =~= y);
    } else {
        assert(x =~= y);
    }
}

/// Lay a word array out as little-endian bytes.
pub fn words_to_bytes(ws: &Vec<u32>) -> (r: Vec<u8>)
    ensures
        r@ == le_bytes_of(ws@),
        r@.len() == 4 * ws@.len(),
{
    proof {
        lemma_le_bytes_len(ws@);
    }
    let mut out: Vec<u8> = Vec::new();
    let mut i: usize = 0;
    while i < ws.len()
        invariant
            i <= ws@.len(),
            out@ == le_bytes_of(ws@.take(i as int)),
        decreases ws@.len() - i,
    {
        let w = ws[i];
        out.push(#[verifier::truncate] ((w & 0xFF) as u8));
        out.push(#[verifier::truncate] (((w >> 8) & 0xFF) as u8));
        out.push(#[verifier::truncate] (((w >> 16) & 0xFF) as u8));
        out.push(#[verifier::truncate] (((w >> 24) & 0xFF) as u8));
        proof {
            assert(ws@.take(i as int + 1).drop_last() =~= ws@.take(i as int));
            assert(ws@.take(i as int + 1).last() == ws@[i as int]);
            assert(out@ =~= le_bytes_of(ws@.take(i as int)) + le_bytes_of_word(w));
        }
        i += 1;
    }
    proof {
        assert(ws@.take(ws@.len() as int) =~= ws@);
    }
    out
}

/// Read a little-endian byte layout back into words; a byte count that is
/// no multiple of four fits no word array.
pub fn bytes_to_words(bytes: &Vec<u8>) -> (r: Option<Vec<u32>>)
    ensures
        r is Some <==> bytes@.len() % 4 == 0,
        r matches Some(v) ==> le_bytes_of(v@) == bytes@ && 4 * v@.len() == bytes@.len(),
{
    if bytes.len() % 4 != 0 {
        return None;
    }
    let n = bytes.len() / 4;
    let mut out: Vec<u32> = Vec::new();
    let mut i: usize = 0;
    while i < n
        invariant
            i <= n,
            4 * n == bytes@.len(),
            4 * n <= usize::MAX,
            out@.len() == i,
            le_bytes_of(out@) == bytes@.take(4 * i as int),
        decreases n - i,
    {
        proof {
            assert(4 * i as int + 3 < bytes@.len());
        }
        let j = 4 * i;
        let b0 = bytes[j];
        let b1 = bytes[j + 1];
        let b2 = bytes[j + 2];
        let b3 = bytes[j + 3];
        let w = (b0 as u32) | ((b1 as u32) << 8) | ((b2 as u32) << 16) | ((b3 as u32) << 24);
        proof {
            lemma_word_le_roundtrip(w);
            assert((w & 0xFF) as u8 == b0 && ((w >> 8) & 0xFF) as u8 == b1 && ((w >> 16) & 0xFF)
                as u8 == b2 && ((w >> 24) & 0xFF) as u8 == b3) by (bit_vector)
                requires
                    w == (b0 as u32) | ((b1 as u32) << 8) | ((b2 as u32) << 16) | ((b3 as u32)
                        << 24),
            {
            }
        }
        let ghost prev = out@;
        out.push(w);
        proof {
            assert(out@.drop_last() =~= prev);
            assert(le_bytes_of(out@) == le_bytes_of(prev) + le_bytes_of_word(w));
            assert(le_bytes_of_word(w) =~= seq![b0, b1, b2, b3]);
            assert(bytes@.take(4 * (i as int + 1)) =~= bytes@.take(4 * i as int) + seq![
                b0,
                b1,
                b2,
                b3,
            ]);
        }
        i += 1;
    }
    proof {
        assert(bytes@.take(4 * n as int) =~= bytes@);
    }
    Some(out)
}

/// The ZLIB stream libflate's encoder writes for a byte array: a function
/// of the bytes alone.
pub uninterp spec fn zlib_of(bytes: Seq<u8>) -> Seq<u8>;

/// The standard base64 text for a byte array: a function of the bytes
/// alone.
pub uninterp spec fn b64_of(bytes: Seq<u8>) -> Seq<char>;

/// What decompressing a ZLIB stream to its end yields: the bytes, or
/// nothing for an invalid stream — a function of the input bytes alone.
pub uninterp spec fn zlib_decoded(bytes: Seq<u8>) -> Option<Seq<u8>>;

/// What base64 decoding yields for a text: the bytes, or nothing for
/// text that is no valid encoding — a function of the text alone.
pub uninterp spec fn b64_decoded(s: Seq<char>) -> Option<Seq<u8>>;

/// Relies on libflate's `zlib::Encoder`: writing bytes through it and
/// finishing yields the ZLIB stream for those bytes, `zlib_of`. Writing
/// into a vector cannot fail.
#[verifier::external_body]
fn zlib_compress(bytes: &Vec<u8>) -> (r: Vec<u8>)
    ensures
        r@ == zlib_of(bytes@),
{
    let mut encoder = libflate::zlib::Encoder::new(Vec::new()).unwrap();
    std::io::Write::write_all(&mut encoder, bytes.as_slice()).unwrap();
    encoder.finish().into_result().unwrap()
}

/// Relies on libflate's `zlib::Decoder`: what it yields is a function of
/// the input bytes alone, `zlib_decoded`, and reading a just-encoded
/// stream to its end gives the original bytes back, so decoding inverts
/// `zlib_of`.
#[verifier::external_body]
fn zlib_decompress(bytes: &Vec<u8>) -> (r: Option<Vec<u8>>)
    ensures
        r is Some <==> zlib_decoded(bytes@) is Some,
        r matches Some(v) ==> zlib_decoded(bytes@) == Some(v@),
        forall|orig: Seq<u8>|
            #![trigger zlib_of(orig)]
            bytes@ == zlib_of(orig) ==> (r is Some && r.unwrap()@ == orig),
{
    let mut decoder = match libflate::zlib::Decoder::new(&bytes[..]) {
        Ok(d) => d,
        Err(_) => return None,
    };
    let mut buf = Vec::new();
    match std::io::Read::read_to_end(&mut decoder, &mut buf) {
        Ok(_) => Some(buf),
        Err(_) => None,
    }
}

/// Relies on `base64::encode`: the standard-alphabet base64 text of the
/// bytes, `b64_of`.
#[verifier::external_body]
fn base64_encode(bytes: &Vec<u8>) -> (r: String)
    ensures
        r@ == b64_of(bytes@),
{
    base64::encode(bytes.as_slice())
}

/// Relies on `base64::decode`: what it yields is a function of the text
/// alone, `b64_decoded`, and decoding a just-encoded text gives the
/// original bytes back, so decoding inverts `b64_of`.
#[verifier::external_body]
fn base64_decode(s: &str) -> (r: Option<Vec<u8>>)
    ensures
        r is Some <==> b64_decoded(s@) is Some,
        r matches Some(v) ==> b64_decoded(s@) == Some(v@),
        forall|orig: Seq<u8>|
            #![trigger b64_of(orig)]
            s@ == b64_of(orig) ==> (r is Some && r.unwrap()@ == orig),
{
    match base64::decode(s) {
        Ok(v) => Some(v),
        Err(_) => None,
    }
}

/// The persisted text for a word array: its little-endian bytes,
/// ZLIB-compressed, in base64.
pub open spec fn encoded_words(ws: Seq<u32>) -> Seq<char> {
    b64_of(zlib_of(le_bytes_of(ws)))
}

/// The bytes a persisted text decodes to, through base64 and then ZLIB;
/// nothing when either layer rejects it.
pub open spec fn spec_decoded_bytes(s: Seq<char>) -> Option<Seq<u8>> {
    match b64_decoded(s) {
        Some(compressed) => zlib_decoded(compressed),
        None => None,
    }
}

/// Encode a word array for its persisted file.
pub fn encode_words(ws: &Vec<u32>) -> (r: String)
    ensures
        r@ == encoded_words(ws@),
{
    let bytes = words_to_bytes(ws);
    let compressed = zlib_compress(&bytes);
    base64_encode(&compressed)
}

/// Decode a persisted text back into the word array it encodes; text
/// whose layers decode to no whole array of words is rejected.
pub fn decode_words(s: &str) -> (r: Option<Vec<u32>>)
    ensures
        r is Some <==> (spec_decoded_bytes(s@) matches Some(b) && b.len() % 4 == 0),
        r matches Some(v) ==> spec_decoded_bytes(s@) == Some(le_bytes_of(v@)),
        forall|ws: Seq<u32>|
            #![trigger encoded_words(ws)]
            s@ == encoded_words(ws) ==> (r is Some && r.unwrap()@ == ws),
{
    let compressed = match base64_decode(s) {
        Some(v) => v,
        None => {
            proof {
                assert forall|ws: Seq<u32>| s@ != encoded_words(ws) by {
                    if s@ == encoded_words(ws) {
                        assert(s@ == b64_of(zlib_of(le_bytes_of(ws))));
                    }
                }
            }
            return None;
        },
    };
    let bytes = match zlib_decompress(&compressed) {
        Some(v) => v,
        None => {
            proof {
                assert forall|ws: Seq<u32>| s@ != encoded_words(ws) by {
                    if s@ == encoded_words(ws) {
                        assert(s@ == b64_of(zlib_of(le_bytes_of(ws))));
                        assert(compressed@ == zlib_of(le_bytes_of(ws)));
                    }
                }
            }
            return None;
        },
    };
    let words = match bytes_to_words(&bytes) {
        Some(v) => v,
        None => {
            proof {
                assert forall|ws: Seq<u32>| s@ != encoded_words(ws) by {
                    if s@ == encoded_words(ws) {
                        assert(s@ == b64_of(zlib_of(le_bytes_of(ws))));
                        assert(compressed@ == zlib_of(le_bytes_of(ws)));
                        assert(bytes@ == le_bytes_of(ws));
                        lemma_le_bytes_len(ws);
                        assert((4 * ws.len()) as int % 4 == 0) by (nonlinear_arith);
                    }
                }
            }
            return None;
        },
    };
    proof {
        assert forall|ws: Seq<u32>| s@ == encoded_words(ws) implies words@ == ws by {
            lemma_le_bytes_len(ws);
            assert(compressed@ == zlib_of(le_bytes_of(ws)));
            assert(bytes@ == le_bytes_of(ws));
            lemma_le_bytes_injective(words@, ws);
        }
    }
    Some(words)
}

/// What a chunk's persisted file holds: an identifier and the two encoded
/// payloads, the voxel array and the height-map array.
pub struct ChunkFileData {
    pub id: String,
    pub voxels: String,
    pub height_map: String,
}

} // verus!
