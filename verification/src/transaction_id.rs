//! The ids of transactions.

use uuid::Uuid;
use vstd::prelude::*;

verus! {

/// A universally unique identifier.
#[verifier::external_type_specification]
#[verifier::external_body]
pub struct ExUuid(uuid::Uuid);

/// The sixteen bytes of `id`.
pub uninterp spec fn uuid_bytes(id: Uuid) -> Seq<u8>;

/// The bytes of a random identifier: version 4, of the variant of RFC 9562.
pub open spec fn is_random_uuid(bytes: Seq<u8>) -> bool {
    &&& bytes.len() == 16
    &&& bytes[6] / 16 == 4
    &&& bytes[8] / 64 == 2
}

/// The lower-case hexadecimal digit for `n`.
pub open spec fn hex_char(n: int) -> char {
    if n < 10 {
        (('0' as u32) + n) as char
    } else {
        (('a' as u32) + n - 10) as char
    }
}

/// The hexadecimal digit number `k` of `bytes`.
pub open spec fn hex_digit(bytes: Seq<u8>, k: int) -> char {
    let b = bytes[k / 2];
    if k % 2 == 0 {
        hex_char(b as int / 16)
    } else {
        hex_char(b as int % 16)
    }
}

/// The text of an identifier: 32 hexadecimal digits, with hyphens that set off
/// groups of 8, 4, 4, 4 and 12.
pub open spec fn uuid_text(bytes: Seq<u8>) -> Seq<char> {
    Seq::new(
        36,
        |i: int|
            if i == 8 || i == 13 || i == 18 || i == 23 {
                '-'
            } else if i < 8 {
                hex_digit(bytes, i)
            } else if i < 13 {
                hex_digit(bytes, i - 1)
            } else if i < 18 {
                hex_digit(bytes, i - 2)
            } else if i < 23 {
                hex_digit(bytes, i - 3)
            } else {
                hex_digit(bytes, i - 4)
            },
    )
}

/// Calls `Uuid::new_v4`. Claimed: a random identifier, whichever it is. Which one comes
/// is left to chance; that no two are the same is likely and not claimed.
#[verifier::external_body]
pub(crate) fn new_transaction_id() -> (id: Uuid)
    ensures
        is_random_uuid(uuid_bytes(id)),
{
    Uuid::new_v4()
}

/// Calls `Uuid::to_string`, that is `ToString` over `Display`. Claimed: the text is
/// the hyphenated form of the bytes, in lower case.
#[verifier::external_body]
pub(crate) fn transaction_id_text(id: &Uuid) -> (text: String)
    ensures
        text@ == uuid_text(uuid_bytes(*id)),
{
    id.to_string()
}

/// Different identifiers have different texts.
pub proof fn law_transaction_ids_have_texts_of_their_own(a: Seq<u8>, b: Seq<u8>)
    requires
        a.len() == 16,
        b.len() == 16,
        a != b,
    ensures
        uuid_text(a) != uuid_text(b),
{
    if uuid_text(a) == uuid_text(b) {
        assert forall|k: int| 0 <= k < 32 implies hex_digit(a, k) == hex_digit(b, k) by {
            let i = if k < 8 {
                k
            } else if k < 12 {
                k + 1
            } else if k < 16 {
                k + 2
            } else if k < 20 {
                k + 3
            } else {
                k + 4
            };
            assert(uuid_text(a)[i] == uuid_text(b)[i]);
        }
        assert forall|j: int| 0 <= j < 16 implies a[j] == b[j] by {
            assert(hex_digit(a, 2 * j) == hex_digit(b, 2 * j));
            assert(hex_digit(a, 2 * j + 1) == hex_digit(b, 2 * j + 1));
            assert((2 * j) / 2 == j && (2 * j + 1) / 2 == j);
            lemma_hex_char_injective(a[j] as int / 16, b[j] as int / 16);
            lemma_hex_char_injective(a[j] as int % 16, b[j] as int % 16);
        }
        assert(a =~= b);
    }
}

proof fn lemma_hex_char_injective(m: int, n: int)
    requires
        0 <= m < 16,
        0 <= n < 16,
        hex_char(m) == hex_char(n),
    ensures
        m == n,
{
    assert(hex_char(m) as u32 == if m < 10 {
        48 + m
    } else {
        87 + m
    });
    assert(hex_char(n) as u32 == if n < 10 {
        48 + n
    } else {
        87 + n
    });
}

} // verus!
