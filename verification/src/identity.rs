//! Deterministic addressing: from a key to the identity of its object, and
//! from an identity to the name of the object's file.

use vstd::prelude::*;
use vstd::utf8::encode_utf8;

verus! {

/// The octets of the name-based SHA-1 identifier (UUID version 5) of `name`
/// in the URL namespace.
pub uninterp spec fn v5_url_octets(name: Seq<u8>) -> Seq<u8>;

/// The identity of the object stored under `key`.
pub open spec fn identity_of(key: Seq<char>) -> Seq<u8> {
    v5_url_octets(encode_utf8(key))
}

/// The lower-case hexadecimal digit of a value below sixteen.
pub open spec fn hex_digit(n: int) -> char {
    seq!['0', '1', '2', '3', '4', '5', '6', '7', '8', '9', 'a', 'b', 'c', 'd', 'e', 'f'][n]
}

/// Two lower-case hexadecimal digits for each octet, high half first.
pub open spec fn hex_lower(octets: Seq<u8>) -> Seq<char> {
    Seq::new(
        2 * octets.len(),
        |i: int| hex_digit(if i % 2 == 0 { octets[i / 2] as int / 16 } else { octets[i / 2] as int % 16 }),
    )
}

/// The hyphenated lower-case text of sixteen octets: groups of four, two,
/// two, two and six octets in hexadecimal, with a hyphen between groups.
pub open spec fn hyphenated_lower(octets: Seq<u8>) -> Seq<char> {
    hex_lower(octets.subrange(0, 4)) + seq!['-'] + hex_lower(octets.subrange(4, 6)) + seq!['-']
        + hex_lower(octets.subrange(6, 8)) + seq!['-'] + hex_lower(octets.subrange(8, 10))
        + seq!['-'] + hex_lower(octets.subrange(10, 16))
}

/// Sixteen octets that are marked as a name-based SHA-1 identifier: the high
/// half of the seventh octet is the version, five, and the two high bits of
/// the ninth are the variant, one and zero.
pub open spec fn is_version_five(octets: Seq<u8>) -> bool {
    &&& octets.len() == 16
    &&& octets[6] as int / 16 == 5
    &&& 128 <= octets[8] < 192
}

/// Whether a character is one of the digits `0` to `9` and `a` to `f`.
pub open spec fn is_hex_lower(c: char) -> bool {
    c == '0' || c == '1' || c == '2' || c == '3' || c == '4' || c == '5' || c == '6' || c == '7'
        || c == '8' || c == '9' || c == 'a' || c == 'b' || c == 'c' || c == 'd' || c == 'e' || c
        == 'f'
}

/// The shape of the name of an object file: thirty-six characters, a hyphen
/// as the ninth, fourteenth, nineteenth and twenty-fourth, and lower-case
/// hexadecimal digits elsewhere, of which the fifteenth is `5` and the
/// twentieth one of `8`, `9`, `a` and `b`. Such a name has no extension.
pub open spec fn is_object_name(text: Seq<char>) -> bool {
    &&& text.len() == 36
    &&& forall|i: int|
        0 <= i < 36 ==> if i == 8 || i == 13 || i == 18 || i == 23 {
            text[i] == '-'
        } else {
            is_hex_lower(#[trigger] text[i])
        }
    &&& text[14] == '5'
    &&& text[19] == '8' || text[19] == '9' || text[19] == 'a' || text[19] == 'b'
}

/// The name of the object file that `key` is stored in.
pub open spec fn object_name(key: Seq<char>) -> Seq<char> {
    hyphenated_lower(identity_of(key))
}

/// The physical identity of a stored object: sixteen octets.
#[derive(Clone, Copy, Debug)]
pub struct Identity {
    octets: [u8; 16],
}

impl View for Identity {
    type V = Seq<u8>;

    closed spec fn view(&self) -> Seq<u8> {
        self.octets@
    }
}

/// Calls `uuid::Uuid::new_v5` with `uuid::Uuid::NAMESPACE_URL` and `name`, and
/// copies the sixteen octets out of the result. The identifier is a digest of
/// the namespace and the name, so the contract only gives it a name; on the
/// digest the call sets the version to five and the variant to that of RFC
/// 4122, which the contract states.
#[verifier::external_body]
fn v5_url(name: &[u8]) -> (octets: [u8; 16])
    ensures
        octets@ == v5_url_octets(name@),
        octets@[6] as int / 16 == 5,
        128 <= octets@[8] < 192,
{
    *uuid::Uuid::new_v5(&uuid::Uuid::NAMESPACE_URL, name).as_bytes()
}

/// Calls `uuid::adapter::Hyphenated::encode_lower` on the identifier made of
/// `octets`. The text is the five hexadecimal groups of `hyphenated_lower`.
#[verifier::external_body]
fn encode_hyphenated_lower(octets: [u8; 16]) -> (text: String)
    ensures
        text@ == hyphenated_lower(octets@),
{
    uuid::Uuid::from_bytes(octets).to_hyphenated().encode_lower(&mut uuid::Uuid::encode_buffer()).to_string()
}

impl Identity {
    /// The identity with the given octets.
    pub fn from_octets(octets: [u8; 16]) -> (id: Identity)
        ensures
            id@ == octets@,
            id@.len() == 16,
    {
        Identity { octets }
    }

    /// The sixteen octets.
    pub fn octets(&self) -> (octets: [u8; 16])
        ensures
            octets@ == self@,
    {
        self.octets
    }

    /// The lower-case hyphenated text of the identity, which names the
    /// object's file.
    pub fn hyphenated(&self) -> (text: String)
        ensures
            text@ == hyphenated_lower(self@),
    {
        encode_hyphenated_lower(self.octets)
    }
}

/// The identity of the object that `key` addresses. It depends on the key's
/// text alone.
pub fn key_to_identity(key: &str) -> (id: Identity)
    ensures
        id@ == identity_of(key@),
        is_version_five(id@),
{
    Identity { octets: v5_url(key.as_bytes()) }
}

/// The identity of an object depends on the text of its key alone: keys with
/// the same text have the same identity and the same object name, whenever
/// and wherever they are asked for.
pub proof fn law_identity_is_deterministic(key: Seq<char>, again: Seq<char>)
    requires
        key == again,
    ensures
        identity_of(key) == identity_of(again),
        object_name(key) == object_name(again),
{
}

/// Where the two digits of the octet `k` start in the hyphenated text.
pub open spec fn digits_at(k: int) -> int {
    2 * k + if k < 4 {
        0int
    } else if k < 6 {
        1int
    } else if k < 8 {
        2int
    } else if k < 10 {
        3int
    } else {
        4int
    }
}

proof fn lemma_hex_digits()
    ensures
        hex_digit(0) == '0',
        hex_digit(1) == '1',
        hex_digit(2) == '2',
        hex_digit(3) == '3',
        hex_digit(4) == '4',
        hex_digit(5) == '5',
        hex_digit(6) == '6',
        hex_digit(7) == '7',
        hex_digit(8) == '8',
        hex_digit(9) == '9',
        hex_digit(10) == 'a',
        hex_digit(11) == 'b',
        hex_digit(12) == 'c',
        hex_digit(13) == 'd',
        hex_digit(14) == 'e',
        hex_digit(15) == 'f',
{
}

proof fn lemma_hex_digit_injective(m: int, n: int)
    requires
        0 <= m < 16,
        0 <= n < 16,
        hex_digit(m) == hex_digit(n),
    ensures
        m == n,
{
    lemma_hex_digits();
}

/// The shape of an object name: thirty-six characters, hyphens after the
/// eighth, twelfth, sixteenth and twentieth digit, and for each octet its two
/// lower-case hexadecimal digits, high half first.
pub proof fn law_object_name_shape(octets: Seq<u8>)
    requires
        octets.len() == 16,
    ensures
        hyphenated_lower(octets).len() == 36,
        hyphenated_lower(octets)[8] == '-',
        hyphenated_lower(octets)[13] == '-',
        hyphenated_lower(octets)[18] == '-',
        hyphenated_lower(octets)[23] == '-',
        forall|k: int|
            0 <= k < 16 ==> hyphenated_lower(octets)[#[trigger] digits_at(k)] == hex_digit(
                octets[k] as int / 16,
            ) && hyphenated_lower(octets)[digits_at(k) + 1] == hex_digit(octets[k] as int % 16),
{
    let text = hyphenated_lower(octets);
    let a = hex_lower(octets.subrange(0, 4));
    let b = hex_lower(octets.subrange(4, 6));
    let c = hex_lower(octets.subrange(6, 8));
    let d = hex_lower(octets.subrange(8, 10));
    let e = hex_lower(octets.subrange(10, 16));
    let hyphen = seq!['-'];
    assert(text == a + hyphen + b + hyphen + c + hyphen + d + hyphen + e);
    assert(a.len() == 8 && b.len() == 4 && c.len() == 4 && d.len() == 4 && e.len() == 12);
    assert(hyphen.len() == 1 && hyphen[0] == '-');
    assert forall|k: int| 0 <= k < 16 implies text[#[trigger] digits_at(k)] == hex_digit(
        octets[k] as int / 16,
    ) && text[digits_at(k) + 1] == hex_digit(octets[k] as int % 16) by {
        if k < 4 {
            assert(text[2 * k] == a[2 * k] && text[2 * k + 1] == a[2 * k + 1]);
            assert(octets.subrange(0, 4)[k] == octets[k]);
        } else if k < 6 {
            let i = 2 * (k - 4);
            assert(text[9 + i] == b[i] && text[9 + i + 1] == b[i + 1]);
            assert(octets.subrange(4, 6)[k - 4] == octets[k]);
        } else if k < 8 {
            let i = 2 * (k - 6);
            assert(text[14 + i] == c[i] && text[14 + i + 1] == c[i + 1]);
            assert(octets.subrange(6, 8)[k - 6] == octets[k]);
        } else if k < 10 {
            let i = 2 * (k - 8);
            assert(text[19 + i] == d[i] && text[19 + i + 1] == d[i + 1]);
            assert(octets.subrange(8, 10)[k - 8] == octets[k]);
        } else {
            let i = 2 * (k - 10);
            assert(text[24 + i] == e[i] && text[24 + i + 1] == e[i + 1]);
            assert(octets.subrange(10, 16)[k - 10] == octets[k]);
        }
    }
}

/// Identities with the same object name are the same: no two identities share
/// an object file.
pub proof fn law_object_names_tell_identities_apart(one: Seq<u8>, other: Seq<u8>)
    requires
        one.len() == 16,
        other.len() == 16,
        hyphenated_lower(one) == hyphenated_lower(other),
    ensures
        one == other,
{
    law_object_name_shape(one);
    law_object_name_shape(other);
    assert forall|k: int| 0 <= k < 16 implies one[k] == other[k] by {
        let at = digits_at(k);
        lemma_hex_digit_injective(one[k] as int / 16, other[k] as int / 16);
        lemma_hex_digit_injective(one[k] as int % 16, other[k] as int % 16);
    }
    assert(one =~= other);
}

/// The hyphenated text of a name-based SHA-1 identifier has the shape of an
/// object name: its version and its variant show as the fifteenth and the
/// twentieth character.
pub proof fn law_version_five_names_objects(octets: Seq<u8>)
    requires
        is_version_five(octets),
    ensures
        is_object_name(hyphenated_lower(octets)),
{
    let text = hyphenated_lower(octets);
    law_object_name_shape(octets);
    lemma_hex_digits();
    assert(digits_at(6) == 14 && digits_at(8) == 19);
    assert(text[14] == hex_digit(octets[6] as int / 16));
    assert(text[19] == hex_digit(octets[8] as int / 16));
    assert forall|i: int| 0 <= i < 36 && !(i == 8 || i == 13 || i == 18 || i == 23) implies is_hex_lower(
        #[trigger] text[i],
    ) by {
        let k = if i < 8 {
            i / 2
        } else if i < 13 {
            (i - 1) / 2
        } else if i < 18 {
            (i - 2) / 2
        } else if i < 23 {
            (i - 3) / 2
        } else {
            (i - 4) / 2
        };
        assert(0 <= k < 16);
        assert(i == digits_at(k) || i == digits_at(k) + 1);
        let high = octets[k] as int / 16;
        let low = octets[k] as int % 16;
        assert(text[digits_at(k)] == hex_digit(high));
        assert(text[digits_at(k) + 1] == hex_digit(low));
    }
}

} // verus!
