//! Big- and little-endian packing of four bytes to and from an `i32`.

use vstd::prelude::*;

verus! {

/// The unsigned value of four bytes read most significant first.
pub open spec fn word_of(b0: u8, b1: u8, b2: u8, b3: u8) -> int {
    b0 * 16777216 + b1 * 65536 + b2 * 256 + b3
}

/// Two's complement reading of a 32-bit word.
pub open spec fn signed_of_word(w: int) -> int {
    if w >= 2147483648 {
        w - 4294967296
    } else {
        w
    }
}

/// The 32-bit word whose two's complement reading is `x`.
pub open spec fn word_of_signed(x: int) -> int {
    if x < 0 {
        x + 4294967296
    } else {
        x
    }
}

/// The four bytes of `x`, most significant first.
pub open spec fn be_bytes(x: i32) -> Seq<u8> {
    let w = word_of_signed(x as int);
    seq![
        (w / 16777216) as u8,
        (w / 65536 % 256) as u8,
        (w / 256 % 256) as u8,
        (w % 256) as u8,
    ]
}

/// The four bytes of `x`, least significant first.
pub open spec fn le_bytes(x: i32) -> Seq<u8> {
    be_bytes(x).reverse()
}

proof fn lemma_word_decompose(w: int)
    requires
        0 <= w < 4294967296,
    ensures
        0 <= w / 16777216 < 256,
        word_of(
            (w / 16777216) as u8,
            (w / 65536 % 256) as u8,
            (w / 256 % 256) as u8,
            (w % 256) as u8,
        ) == w,
{
    assert(0 <= w / 16777216 < 256) by (nonlinear_arith)
        requires
            0 <= w < 4294967296,
    ;
    assert(w == (w / 16777216) * 16777216 + (w / 65536 % 256) * 65536 + (w / 256 % 256) * 256 + w
        % 256) by (nonlinear_arith)
        requires
            0 <= w < 4294967296,
    ;
}

proof fn lemma_word_bytes(b0: u8, b1: u8, b2: u8, b3: u8)
    ensures
        ({
            let w = word_of(b0, b1, b2, b3);
            &&& 0 <= w < 4294967296
            &&& w / 16777216 == b0
            &&& w / 65536 % 256 == b1
            &&& w / 256 % 256 == b2
            &&& w % 256 == b3
        }),
{
    let w = word_of(b0, b1, b2, b3);
    assert(0 <= w < 4294967296 && w / 16777216 == b0 && w / 65536 % 256 == b1 && w / 256 % 256
        == b2 && w % 256 == b3) by (nonlinear_arith)
        requires
            w == b0 * 16777216 + b1 * 65536 + b2 * 256 + b3,
            0 <= b0 < 256,
            0 <= b1 < 256,
            0 <= b2 < 256,
            0 <= b3 < 256,
    ;
}

fn word_to_i32(w: u64) -> (r: i32)
    requires
        w < 4294967296,
    ensures
        r as int == signed_of_word(w as int),
{
    if w >= 2147483648 {
        (w as i64 - 4294967296i64) as i32
    } else {
        w as i32
    }
}

fn i32_to_word(x: i32) -> (w: u64)
    ensures
        w as int == word_of_signed(x as int),
        w < 4294967296,
{
    if x < 0 {
        (x as i64 + 4294967296i64) as u64
    } else {
        x as u64
    }
}

fn word_to_be(w: u64) -> (r: [u8; 4])
    requires
        w < 4294967296,
    ensures
        r@ == seq![
            (w / 16777216) as u8,
            (w / 65536 % 256) as u8,
            (w / 256 % 256) as u8,
            (w % 256) as u8,
        ],
{
    proof {
        lemma_word_decompose(w as int);
    }
    let r = [(w / 16777216) as u8, (w / 65536 % 256) as u8, (w / 256 % 256) as u8, (w % 256) as u8];
    assert(r@ =~= seq![
        (w / 16777216) as u8,
        (w / 65536 % 256) as u8,
        (w / 256 % 256) as u8,
        (w % 256) as u8,
    ]);
    r
}

/// Interprets the first four bytes of `b` as a big-endian `i32`.
pub fn pack_big_endian(b: &[u8]) -> (r: i32)
    requires
        b@.len() >= 4,
    ensures
        r as int == signed_of_word(word_of(b@[0], b@[1], b@[2], b@[3])),
{
    let w: u64 = b[0] as u64 * 16777216 + b[1] as u64 * 65536 + b[2] as u64 * 256 + b[3] as u64;
    word_to_i32(w)
}

/// Encodes `x` as four big-endian bytes.
pub fn unpack_big_endian(x: i32) -> (r: [u8; 4])
    ensures
        r@ == be_bytes(x),
{
    word_to_be(i32_to_word(x))
}

/// Interprets the first four bytes of `b` as a little-endian `i32`.
pub fn pack_little_endian(b: &[u8]) -> (r: i32)
    requires
        b@.len() >= 4,
    ensures
        r as int == signed_of_word(word_of(b@[3], b@[2], b@[1], b@[0])),
{
    let w: u64 = b[3] as u64 * 16777216 + b[2] as u64 * 65536 + b[1] as u64 * 256 + b[0] as u64;
    word_to_i32(w)
}

/// Encodes `x` as four little-endian bytes.
pub fn unpack_little_endian(x: i32) -> (r: [u8; 4])
    ensures
        r@ == le_bytes(x),
{
    let be = word_to_be(i32_to_word(x));
    let r = [be[3], be[2], be[1], be[0]];
    assert(r@ =~= be@.reverse());
    r
}

/// Packing the big-endian bytes of `x` gives back `x`, and the bytes of a
/// packed value are the bytes it was read from.
pub proof fn lemma_big_endian_round_trip(x: i32, b0: u8, b1: u8, b2: u8, b3: u8)
    ensures
        signed_of_word(word_of(be_bytes(x)[0], be_bytes(x)[1], be_bytes(x)[2], be_bytes(x)[3]))
            == x,
        ({
            let y = signed_of_word(word_of(b0, b1, b2, b3));
            be_bytes(y as i32) == seq![b0, b1, b2, b3]
        }),
{
    let w = word_of_signed(x as int);
    lemma_word_decompose(w);
    lemma_word_bytes(b0, b1, b2, b3);
    let y = signed_of_word(word_of(b0, b1, b2, b3));
    assert(word_of_signed(y) == word_of(b0, b1, b2, b3));
    assert(be_bytes(y as i32) =~= seq![b0, b1, b2, b3]);
}

/// Packing the little-endian bytes of `x` gives back `x`, and the bytes of a
/// packed value are the bytes it was read from.
pub proof fn lemma_little_endian_round_trip(x: i32, b0: u8, b1: u8, b2: u8, b3: u8)
    ensures
        signed_of_word(word_of(le_bytes(x)[3], le_bytes(x)[2], le_bytes(x)[1], le_bytes(x)[0]))
            == x,
        ({
            let y = signed_of_word(word_of(b3, b2, b1, b0));
            le_bytes(y as i32) == seq![b0, b1, b2, b3]
        }),
{
    lemma_big_endian_round_trip(x, b3, b2, b1, b0);
    assert(le_bytes(x)[0] == be_bytes(x)[3]);
    assert(le_bytes(x)[3] == be_bytes(x)[0]);
    let y = signed_of_word(word_of(b3, b2, b1, b0));
    assert(le_bytes(y as i32) =~= seq![b0, b1, b2, b3]);
}

} // verus!
