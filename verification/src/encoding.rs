//! Unpadded standard Base64, as stanza arguments are written in.
use base64::prelude::{BASE64_STANDARD_NO_PAD, Engine};
use vstd::prelude::*;

verus! {

/// The letter of the standard alphabet for a value below 64.
pub open spec fn symbol(v: int) -> char {
    if v < 26 {
        (65 + v) as u8 as char
    } else if v < 52 {
        (71 + v) as u8 as char
    } else if v < 62 {
        (v - 4) as u8 as char
    } else if v == 62 {
        '+'
    } else {
        '/'
    }
}

/// Byte `i` of `data`, zero past its end.
pub open spec fn byte_at(data: Seq<u8>, i: int) -> int {
    if i < data.len() {
        data[i] as int
    } else {
        0
    }
}

/// The six bits of `data` that start at bit `6 * i`, most significant bit first.
pub open spec fn sextet(data: Seq<u8>, i: int) -> int {
    let k = 3 * (i / 4);
    if i % 4 == 0 {
        byte_at(data, k) / 4
    } else if i % 4 == 1 {
        byte_at(data, k) % 4 * 16 + byte_at(data, k + 1) / 16
    } else if i % 4 == 2 {
        byte_at(data, k + 1) % 16 * 4 + byte_at(data, k + 2) / 64
    } else {
        byte_at(data, k + 2) % 64
    }
}

/// The Base64 text of `data`: as many symbols as hold all its bits, and no padding.
pub open spec fn base64_text(data: Seq<u8>) -> Seq<char> {
    Seq::new(((8 * data.len() + 5) / 6) as nat, |i: int| symbol(sextet(data, i)))
}

/// The bytes whose Base64 text is `text`, if there are any.
pub open spec fn base64_decoded(text: Seq<char>) -> Option<Seq<u8>> {
    if exists|data: Seq<u8>| base64_text(data) == text {
        Some(choose|data: Seq<u8>| base64_text(data) == text)
    } else {
        None
    }
}

proof fn lemma_symbol_injective(a: int, b: int)
    requires
        0 <= a < 64,
        0 <= b < 64,
        symbol(a) == symbol(b),
    ensures
        a == b,
{
}

/// Different bytes have different texts.
pub proof fn law_base64_text_injective(a: Seq<u8>, b: Seq<u8>)
    requires
        base64_text(a) == base64_text(b),
    ensures
        a == b,
{
    let n = a.len();
    assert((8 * a.len() + 5) / 6 == base64_text(a).len());
    assert((8 * b.len() + 5) / 6 == base64_text(b).len());
    assert(a.len() == b.len());
    assert forall|j: int| 0 <= j < n implies a[j] == b[j] by {
        let k = j / 3;
        let i0 = 4 * k + j % 3;
        let i1 = i0 + 1;
        assert(i1 < (8 * n + 5) / 6);
        assert(base64_text(a)[i0] == symbol(sextet(a, i0)));
        assert(base64_text(b)[i0] == symbol(sextet(b, i0)));
        assert(base64_text(a)[i1] == symbol(sextet(a, i1)));
        assert(base64_text(b)[i1] == symbol(sextet(b, i1)));
        assert(i0 / 4 == k && i0 % 4 == j % 3);
        assert(i1 / 4 == k && i1 % 4 == j % 3 + 1);
        lemma_symbol_injective(sextet(a, i0), sextet(b, i0));
        lemma_symbol_injective(sextet(a, i1), sextet(b, i1));
        assert(j == 3 * k + j % 3);
    }
    assert(a =~= b);
}

/// Decoding the text of some bytes gives those bytes back.
pub proof fn law_base64_round_trip(data: Seq<u8>)
    ensures
        base64_decoded(base64_text(data)) == Some(data),
{
    let text = base64_text(data);
    assert(base64_text(data) == text);
    let found = choose|d: Seq<u8>| base64_text(d) == text;
    law_base64_text_injective(found, data);
}

/// `Engine::decode` of the engine `BASE64_STANDARD_NO_PAD`. It accepts exactly the texts that
/// the standard alphabet spells without padding and with the unused bits of the last symbol
/// zero, and gives the bytes that such a text spells.
#[verifier::external_body]
fn engine_decode(text: &str) -> (r: Option<Vec<u8>>)
    ensures
        match r {
            Some(data) => base64_text(data@) == text@,
            None => forall|data: Seq<u8>| base64_text(data) != text@,
        },
{
    BASE64_STANDARD_NO_PAD.decode(text).ok()
}

/// Decodes unpadded standard Base64.
pub fn base64_decode(text: &str) -> (r: Option<Vec<u8>>)
    ensures
        match r {
            Some(data) => base64_decoded(text@) == Some(data@),
            None => base64_decoded(text@) is None,
        },
{
    match engine_decode(text) {
        Some(data) => {
            proof {
                law_base64_round_trip(data@);
            }
            Some(data)
        },
        None => None,
    }
}

/// Two neighbouring bytes of some data as one number of sixteen bits, a byte past the end as
/// zero.
pub open spec fn two_bytes(data: Seq<u8>, i: int) -> int {
    256 * (if i < data.len() {
        data[i] as int
    } else {
        0
    }) + (if i + 1 < data.len() {
        data[i + 1] as int
    } else {
        0
    })
}

/// Base64 cuts the bits of the data, from the first on, into pieces of six, and spells each by
/// the letter with that number in the alphabet. As many pieces as hold all the bits are written,
/// and nothing else.
pub proof fn law_base64_spells_six_bits_each(data: Seq<u8>, i: int)
    requires
        0 <= i < base64_text(data).len(),
    ensures
        8 * data.len() <= 6 * base64_text(data).len() < 8 * data.len() + 6,
        ({
            let pair = two_bytes(data, 6 * i / 8);
            let shift: int = if 6 * i % 8 == 0 {
                1024
            } else if 6 * i % 8 == 2 {
                256
            } else if 6 * i % 8 == 4 {
                64
            } else {
                16
            };
            let alphabet = "ABCDEFGHIJKLMNOPQRSTUVWXYZabcdefghijklmnopqrstuvwxyz0123456789+/"@;
            base64_text(data)[i] == alphabet[pair / shift % 64]
        }),
{
    lemma_sextet(data, i);
    lemma_symbol_in_alphabet(sextet(data, i));
}

proof fn lemma_six_bits(a: u8, b: u8)
    ensures
        (256 * a + b) / 1024 % 64 == a / 4,
        (256 * a + b) / 16 % 64 == a % 4 * 16 + b / 16,
        (256 * a + b) / 64 % 64 == a % 16 * 4 + b / 64,
        (256 * a + b) / 256 % 64 == a % 64,
{
    assert((256 * a + b) / 1024 % 64 == a / 4) by (bit_vector);
    assert((256 * a + b) / 16 % 64 == a % 4 * 16 + b / 16) by (bit_vector);
    assert((256 * a + b) / 64 % 64 == a % 16 * 4 + b / 64) by (bit_vector);
    assert((256 * a + b) / 256 % 64 == a % 64) by (bit_vector);
}

proof fn lemma_sextet(data: Seq<u8>, i: int)
    requires
        0 <= i,
    ensures
        0 <= sextet(data, i) < 64,
        sextet(data, i) == two_bytes(data, 6 * i / 8) / (if 6 * i % 8 == 0 {
            1024int
        } else if 6 * i % 8 == 2 {
            256
        } else if 6 * i % 8 == 4 {
            64
        } else {
            16
        }) % 64,
{
    let j = 6 * i / 8;
    lemma_six_bits(byte_at(data, j) as u8, byte_at(data, j + 1) as u8);
    let q = i / 4;
    if i % 4 == 0 {
        assert(6 * i == 24 * q);
    } else if i % 4 == 1 {
        assert(6 * i == 24 * q + 6);
    } else if i % 4 == 2 {
        assert(6 * i == 24 * q + 12);
    } else {
        assert(6 * i == 24 * q + 18);
    }
}

proof fn lemma_symbol_in_alphabet(v: int)
    requires
        0 <= v < 64,
    ensures
        symbol(v) == "ABCDEFGHIJKLMNOPQRSTUVWXYZabcdefghijklmnopqrstuvwxyz0123456789+/"@[v],
{
    reveal_strlit("ABCDEFGHIJKLMNOPQRSTUVWXYZabcdefghijklmnopqrstuvwxyz0123456789+/");
}

/// A text decodes to some data exactly if it is the Base64 of that data.
pub proof fn law_decoding_undoes_encoding(text: Seq<char>, data: Seq<u8>)
    ensures
        base64_decoded(text) == Some(data) <==> base64_text(data) == text,
{
    if base64_text(data) == text {
        law_base64_round_trip(data);
    }
}

} // verus!
