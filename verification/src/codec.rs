//! The event codec: bidirectional conversion between a logical typing event
//! and a fixed 4-byte wire frame.
//!
//! A frame has two disjoint shapes.  A key event is `[0xFF, key, 1|0, mods]`
//! (press or release); a character event is the UTF-8 encoding of one Unicode
//! scalar value, padded with trailing zero bytes to 4 bytes.  Valid UTF-8
//! never begins with `0xFF`, so the first byte alone discriminates the two
//! shapes.

use vstd::prelude::*;
use vstd::utf8::*;

use crate::key::Key;
use crate::mods::Mods;

verus! {

/// First byte of every key-event frame; never the first byte of UTF-8.
pub const SENTINEL: u8 = 0xFF;

/// A typing event: a character of textual input, or a key transition with
/// the modifier state in force when it happened.
#[derive(Clone, Copy, Debug, PartialEq, Eq, Structural)]
pub enum Type {
    /// One Unicode scalar value of textual input.
    Char(char),
    /// A key went down under the given modifiers.
    Press(Key, Mods),
    /// A key came up under the given modifiers.
    Release(Key, Mods),
}

/// Why a frame failed to decode.
#[derive(Clone, Copy, Debug, PartialEq, Eq, Structural)]
pub enum DecodeError {
    /// A character-shaped frame did not hold valid UTF-8.
    InvalidEncoding,
    /// A key-shaped frame held a transition byte other than 0 or 1.
    InvalidKeyState,
}

/// The packed 4-byte wire frame of one typing event.
#[derive(Clone, Copy, Debug, PartialEq, Eq)]
pub struct TypeInternal(pub [u8; 4]);

/// A sequence of `n` zero bytes, as used to pad a character frame.
pub open spec fn zero_bytes(n: nat) -> Seq<u8> {
    Seq::new(n, |i: int| 0u8)
}

/// The frame bytes that encode the given event.
pub open spec fn spec_encode(t: Type) -> Seq<u8> {
    match t {
        Type::Char(c) => encode_scalar(c as u32) + zero_bytes(
            (4 - encode_scalar(c as u32).len()) as nat,
        ),
        Type::Press(k, m) => seq![SENTINEL, k.0, 1u8, m.0],
        Type::Release(k, m) => seq![SENTINEL, k.0, 0u8, m.0],
    }
}

/// The event encoded by the given frame bytes, or the exact error:
/// a key-shaped frame (first byte `0xFF`) decodes by its fields, with a
/// transition byte other than 0 or 1 rejected; any other frame decodes as the
/// first scalar of its UTF-8 contents, rejected when the 4 bytes are not
/// valid UTF-8.
pub open spec fn spec_decode(bytes: Seq<u8>) -> Result<Type, DecodeError>
    recommends
        bytes.len() == 4,
{
    if bytes[0] == SENTINEL {
        if bytes[2] == 1 {
            Ok(Type::Press(Key(bytes[1]), Mods(bytes[3])))
        } else if bytes[2] == 0 {
            Ok(Type::Release(Key(bytes[1]), Mods(bytes[3])))
        } else {
            Err(DecodeError::InvalidKeyState)
        }
    } else if valid_utf8(bytes) {
        Ok(Type::Char(decode_utf8(bytes)[0]))
    } else {
        Err(DecodeError::InvalidEncoding)
    }
}

/// Relies on char::from_u32 of std: it returns the character with the given
/// scalar value exactly when the value is one (not a surrogate, at most
/// 0x10FFFF), and None otherwise.
pub assume_specification[ char::from_u32 ](i: u32) -> (r: Option<char>)
    ensures
        r is Some <==> (i <= 0x10FFFF && !(0xD800 <= i <= 0xDFFF)),
        r matches Some(c) ==> c as u32 == i,
;

impl TypeInternal {
    /// Build a key-event frame: sentinel, key code, transition, modifiers.
    pub fn new(key: Key, state: bool, mods: Mods) -> (r: Self)
        ensures
            r.0@ == seq![SENTINEL, key.0, if state { 1u8 } else { 0u8 }, mods.0],
    {
        let r = TypeInternal([SENTINEL, key.0, if state { 1 } else { 0 }, mods.0]);
        proof {
            assert(r.0@ =~= seq![SENTINEL, key.0, if state { 1u8 } else { 0u8 }, mods.0]);
        }
        r
    }
}

/// Pack one event into its 4-byte frame.
pub fn encode(typed: Type) -> (r: TypeInternal)
    ensures
        r.0@ == spec_encode(typed),
{
    match typed {
        Type::Char(c) => {
            let u: u32 = c as u32;
            proof {
                char_is_scalar(c);
            }
            let arr: [u8; 4] = if u < 0x80 {
                [(u & 0x7F) as u8, 0, 0, 0]
            } else if u < 0x800 {
                [0xC0 | ((u >> 6) & 0x1F) as u8, 0x80 | (u & 0x3F) as u8, 0, 0]
            } else if u < 0x10000 {
                [
                    0xE0 | ((u >> 12) & 0x0F) as u8,
                    0x80 | ((u >> 6) & 0x3F) as u8,
                    0x80 | (u & 0x3F) as u8,
                    0,
                ]
            } else {
                [
                    0xF0 | ((u >> 18) & 0x7) as u8,
                    0x80 | ((u >> 12) & 0x3F) as u8,
                    0x80 | ((u >> 6) & 0x3F) as u8,
                    0x80 | (u & 0x3F) as u8,
                ]
            };
            proof {
                assert(arr@ =~= spec_encode(typed));
            }
            TypeInternal(arr)
        },
        Type::Press(key, mods) => {
            let r = TypeInternal::new(key, true, mods);
            proof {
                assert(r.0@ =~= spec_encode(typed));
            }
            r
        },
        Type::Release(key, mods) => {
            let r = TypeInternal::new(key, false, mods);
            proof {
                assert(r.0@ =~= spec_encode(typed));
            }
            r
        },
    }
}

/// Parse the UTF-8 scalar that starts at position `i` of the frame bytes:
/// its value and width when the bytes there begin a well-formed scalar
/// encoding, and nothing otherwise.
fn first_scalar_from(bytes: &[u8; 4], i: usize) -> (r: Option<(u32, usize)>)
    requires
        i < 4,
    ensures
        ({
            let tail = bytes@.subrange(i as int, 4);
            match r {
                Some(pair) => {
                    &&& valid_first_scalar(tail)
                    &&& pair.0 == decode_first_scalar(tail)
                    &&& pair.1 == length_of_first_scalar(tail)
                    &&& 1 <= pair.1 <= 4 - i
                    &&& is_scalar(pair.0)
                },
                None => !valid_first_scalar(tail),
            }
        }),
{
    let ghost tail = bytes@.subrange(i as int, 4);
    let b0 = bytes[i];
    if b0 < 0x80 {
        proof {
            assert((b0 as u32) == ((b0 & 0x7F) as u32)) by (bit_vector)
                requires
                    b0 < 0x80,
            ;
        }
        Some((b0 as u32, 1))
    } else if 0xC0 <= b0 && b0 <= 0xDF {
        if i + 1 >= 4 {
            return None;
        }
        let b1 = bytes[i + 1];
        if !(0x80 <= b1 && b1 <= 0xBF) {
            return None;
        }
        let cp: u32 = (((b0 & 0x1F) as u32) << 6) | ((b1 & 0x3F) as u32);
        proof {
            assert(cp == codepoint_width_2(b0, b1));
            assert((((b0 & 0x1F) as u32) << 6) | ((b1 & 0x3F) as u32) <= 0x7FF) by (bit_vector);
        }
        if cp < 0x80 {
            return None;
        }
        Some((cp, 2))
    } else if 0xE0 <= b0 && b0 <= 0xEF {
        if i + 2 >= 4 {
            return None;
        }
        let b1 = bytes[i + 1];
        let b2 = bytes[i + 2];
        if !(0x80 <= b1 && b1 <= 0xBF) || !(0x80 <= b2 && b2 <= 0xBF) {
            return None;
        }
        let cp: u32 = (((b0 & 0x0F) as u32) << 12) | (((b1 & 0x3F) as u32) << 6) | ((b2
            & 0x3F) as u32);
        proof {
            assert(cp == codepoint_width_3(b0, b1, b2));
            assert((((b0 & 0x0F) as u32) << 12) | (((b1 & 0x3F) as u32) << 6) | ((b2
                & 0x3F) as u32) <= 0xFFFF) by (bit_vector);
        }
        if cp < 0x800 {
            return None;
        }
        if 0xD800 <= cp && cp <= 0xDFFF {
            return None;
        }
        Some((cp, 3))
    } else if 0xF0 <= b0 && b0 <= 0xF7 {
        if i + 3 >= 4 {
            return None;
        }
        let b1 = bytes[i + 1];
        let b2 = bytes[i + 2];
        let b3 = bytes[i + 3];
        if !(0x80 <= b1 && b1 <= 0xBF) || !(0x80 <= b2 && b2 <= 0xBF) || !(0x80 <= b3 && b3
            <= 0xBF) {
            return None;
        }
        let cp: u32 = (((b0 & 0x07) as u32) << 18) | (((b1 & 0x3F) as u32) << 12) | (((b2
            & 0x3F) as u32) << 6) | ((b3 & 0x3F) as u32);
        proof {
            assert(cp == codepoint_width_4(b0, b1, b2, b3));
        }
        if !(0x10000 <= cp && cp <= 0x10FFFF) {
            return None;
        }
        Some((cp, 4))
    } else {
        None
    }
}

/// Check the whole 4-byte frame as UTF-8 and return its first character.
fn check_char_frame(bytes: &[u8; 4]) -> (r: Option<char>)
    ensures
        r is Some <==> valid_utf8(bytes@),
        r matches Some(c) ==> c == decode_utf8(bytes@)[0],
{
    let mut i: usize = 0;
    let mut first: u32 = 0;
    while i < 4
        invariant
            0 <= i <= 4,
            partial_valid_utf8(bytes@, i as int),
            i > 0 ==> valid_first_scalar(bytes@) && first == decode_first_scalar(bytes@)
                && is_scalar(first),
        decreases 4 - i,
    {
        match first_scalar_from(bytes, i) {
            None => {
                proof {
                    let tail = bytes@.subrange(i as int, 4);
                    assert(tail.len() > 0);
                    assert(!valid_utf8(tail));
                    partial_valid_partial_invalid_utf8(bytes@, i as int);
                }
                return None;
            },
            Some(pair) => {
                proof {
                    partial_valid_utf8_extend(bytes@, i as int);
                    if i == 0 {
                        assert(bytes@.subrange(0, 4) =~= bytes@);
                    }
                }
                if i == 0 {
                    first = pair.0;
                }
                i = i + pair.1;
            },
        }
    }
    proof {
        assert(bytes@.subrange(0, 4) =~= bytes@);
    }
    match char::from_u32(first) {
        Some(c) => {
            proof {
                char_u32_cast(c, first);
                assert(decode_utf8(bytes@)[0] == decode_first_scalar(bytes@) as char);
            }
            Some(c)
        },
        None => {
            proof {
                assert(false);
            }
            None
        },
    }
}

/// Unpack a 4-byte frame into the event it encodes, or say exactly why the
/// frame is malformed.
pub fn decode(frame: TypeInternal) -> (r: Result<Type, DecodeError>)
    ensures
        r == spec_decode(frame.0@),
{
    let b = &frame.0;
    if b[0] == SENTINEL {
        let key = Key(b[1]);
        let mods = Mods(b[3]);
        if b[2] == 1 {
            Ok(Type::Press(key, mods))
        } else if b[2] == 0 {
            Ok(Type::Release(key, mods))
        } else {
            Err(DecodeError::InvalidKeyState)
        }
    } else {
        match check_char_frame(b) {
            Some(c) => Ok(Type::Char(c)),
            None => Err(DecodeError::InvalidEncoding),
        }
    }
}

/// A sequence of `n` NUL characters, the characters whose encodings pad a
/// short character frame.
spec fn pad_chars(n: nat) -> Seq<char> {
    Seq::new(n, |i: int| '\0')
}

/// The encoding of `n` NUL characters is `n` zero bytes.
proof fn lemma_encode_pad(n: nat)
    ensures
        encode_utf8(pad_chars(n)) == zero_bytes(n),
    decreases n,
{
    if n == 0 {
        assert(encode_utf8(pad_chars(0)) =~= zero_bytes(0));
    } else {
        lemma_encode_pad((n - 1) as nat);
        assert(pad_chars(n).drop_first() =~= pad_chars((n - 1) as nat));
        assert(('\0' as u32) == 0u32);
        assert(((0u32 & 0x7F) as u8) == 0u8) by (bit_vector);
        assert(encode_scalar('\0' as u32) =~= seq![0u8]);
        assert(encode_utf8(pad_chars(n)) =~= zero_bytes(n));
    }
}

/// A character frame is the encoding of its character followed by NUL
/// padding: it is valid UTF-8, starts with a byte other than the sentinel,
/// and decodes back to the character.
proof fn lemma_char_frame(c: char)
    ensures
        spec_encode(Type::Char(c)).len() == 4,
        valid_utf8(spec_encode(Type::Char(c))),
        spec_encode(Type::Char(c))[0] != SENTINEL,
        decode_utf8(spec_encode(Type::Char(c)))[0] == c,
{
    char_is_scalar(c);
    let u = c as u32;
    let enc = encode_scalar(u);
    let npad = (4 - enc.len()) as nat;
    let bytes = spec_encode(Type::Char(c));
    let chars = seq![c] + pad_chars(npad);

    assert(1 <= enc.len() <= 4);
    assert(bytes.len() == 4);

    // The frame is exactly the UTF-8 encoding of the padded character list.
    lemma_encode_pad(npad);
    assert(chars.drop_first() =~= pad_chars(npad));
    assert(chars[0] == c);
    assert(encode_utf8(chars) =~= bytes);

    encode_utf8_valid_utf8(chars);
    encode_utf8_decode_utf8(chars);
    assert(decode_utf8(bytes)[0] == chars[0]);

    // The leading byte of each encoding width stays below the sentinel.
    if has_width_1_encoding(u) {
        assert(((u & 0x7F) as u8) != 0xFF) by (bit_vector);
    } else if has_width_2_encoding(u) {
        assert((0xC0u8 | (((u >> 6) & 0x1F) as u8)) != 0xFF) by (bit_vector);
    } else if has_width_3_encoding(u) {
        assert((0xE0u8 | (((u >> 12) & 0x0F) as u8)) != 0xFF) by (bit_vector);
    } else {
        assert((0xF0u8 | (((u >> 18) & 0x7) as u8)) != 0xFF) by (bit_vector);
    }
    assert(bytes[0] == enc[0]);
}

/// Round trip: decoding the frame that encodes an event gives back exactly
/// that event, for every constructible event.
pub proof fn lemma_encode_decode(t: Type)
    ensures
        spec_decode(spec_encode(t)) == Ok::<Type, DecodeError>(t),
{
    match t {
        Type::Char(c) => {
            lemma_char_frame(c);
        },
        Type::Press(k, m) => {
            assert(spec_encode(t)[0] == SENTINEL);
            assert(spec_encode(t)[2] == 1);
        },
        Type::Release(k, m) => {
            assert(spec_encode(t)[0] == SENTINEL);
            assert(spec_encode(t)[2] == 0);
        },
    }
}

} // verus!
