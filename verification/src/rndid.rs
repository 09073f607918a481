//! Randomly generated (probably) unique IDs.
//!
//! IDs are generated as a random sequence of 128 bits and carried as 32
//! lowercase hexadecimal characters. The hex encoding, and the validation
//! and normalisation of IDs parsed from text, are implemented and verified
//! here; only the random bytes come from the outside.
use vstd::prelude::*;

use rand::Rng;
use vstd::string::StrSliceExecFns;

verus! {

pub assume_specification[ String::push ](s: &mut String, ch: char)
    ensures
        final(s)@ == old(s)@.push(ch),
;

/// Lowercase hexadecimal digit of a nibble value.
pub open spec fn hex_digit(value: nat) -> char {
    if value == 0 {
        '0'
    } else if value == 1 {
        '1'
    } else if value == 2 {
        '2'
    } else if value == 3 {
        '3'
    } else if value == 4 {
        '4'
    } else if value == 5 {
        '5'
    } else if value == 6 {
        '6'
    } else if value == 7 {
        '7'
    } else if value == 8 {
        '8'
    } else if value == 9 {
        '9'
    } else if value == 10 {
        'a'
    } else if value == 11 {
        'b'
    } else if value == 12 {
        'c'
    } else if value == 13 {
        'd'
    } else if value == 14 {
        'e'
    } else {
        'f'
    }
}

/// The lowercase hexadecimal rendering of a byte sequence, two digits per
/// byte, most significant nibble first.
pub open spec fn hex_of_bytes(bytes: Seq<u8>) -> Seq<char>
    decreases bytes.len(),
{
    if bytes.len() == 0 {
        Seq::<char>::empty()
    } else {
        hex_of_bytes(bytes.drop_last()) + seq![
            hex_digit((bytes.last() / 16) as nat),
            hex_digit((bytes.last() % 16) as nat),
        ]
    }
}

/// A hexadecimal digit, either case.
pub open spec fn is_hex_char(c: char) -> bool {
    ('0' <= c && c <= '9') || ('a' <= c && c <= 'f') || ('A' <= c && c <= 'F')
}

/// A lowercase hexadecimal digit.
pub open spec fn is_lower_hex_char(c: char) -> bool {
    ('0' <= c && c <= '9') || ('a' <= c && c <= 'f')
}

/// Uppercase hexadecimal digits folded to lowercase; other characters
/// unchanged.
pub open spec fn to_lower_hex(c: char) -> char {
    if c == 'A' {
        'a'
    } else if c == 'B' {
        'b'
    } else if c == 'C' {
        'c'
    } else if c == 'D' {
        'd'
    } else if c == 'E' {
        'e'
    } else if c == 'F' {
        'f'
    } else {
        c
    }
}

/// The text of an ID after normalisation to lowercase.
pub open spec fn lower_hex_view(s: Seq<char>) -> Seq<char> {
    s.map_values(|c: char| to_lower_hex(c))
}

/// The text of a well-formed ID: 32 lowercase hexadecimal characters.
pub open spec fn valid_id(s: Seq<char>) -> bool {
    &&& s.len() == 32
    &&& forall|i: int| 0 <= i < 32 ==> is_lower_hex_char(#[trigger] s[i])
}

/// What decoding an ID from text rejected.
#[derive(Clone, Copy, PartialEq, Eq, Debug)]
pub enum DecodeKind {
    /// The text does not have the length of an encoded ID.
    Length,
    /// The text holds a character that is no hexadecimal digit.
    Symbol,
}

/// Why some text is no valid ID, and where it went wrong.
#[derive(Clone, Copy, PartialEq, Eq, Debug)]
pub struct DecodeError {
    /// Index of the offending character, or 0 for a length error.
    pub position: usize,
    /// What was rejected.
    pub kind: DecodeKind,
}

/// Relies on rand::thread_rng and rand::Rng::gen: 16 bytes drawn from the
/// thread-local random number generator; nothing is promised of their
/// values.
#[verifier::external_body]
fn random_bytes() -> (r: Vec<u8>)
    ensures
        r@.len() == 16,
{
    let bytes: [u8; 16] = rand::thread_rng().gen();
    bytes.to_vec()
}

/// Exec form of [`hex_digit`].
pub(crate) fn hex_digit_char(value: u8) -> (c: char)
    requires
        value < 16,
    ensures
        c == hex_digit(value as nat),
{
    match value {
        0 => '0',
        1 => '1',
        2 => '2',
        3 => '3',
        4 => '4',
        5 => '5',
        6 => '6',
        7 => '7',
        8 => '8',
        9 => '9',
        10 => 'a',
        11 => 'b',
        12 => 'c',
        13 => 'd',
        14 => 'e',
        _ => 'f',
    }
}

/// Exec form of [`is_hex_char`].
fn is_hex_char_exec(c: char) -> (r: bool)
    ensures
        r == is_hex_char(c),
{
    ('0' <= c && c <= '9') || ('a' <= c && c <= 'f') || ('A' <= c && c <= 'F')
}

/// Exec form of [`to_lower_hex`].
fn lower_char(c: char) -> (r: char)
    ensures
        r == to_lower_hex(c),
{
    match c {
        'A' => 'a',
        'B' => 'b',
        'C' => 'c',
        'D' => 'd',
        'E' => 'e',
        'F' => 'f',
        other => other,
    }
}

/// The hex rendering of a byte sequence has two digits per byte and every
/// digit is a lowercase hexadecimal character.
proof fn lemma_hex_of_bytes_valid(bytes: Seq<u8>)
    ensures
        hex_of_bytes(bytes).len() == 2 * bytes.len(),
        forall|i: int|
            0 <= i < hex_of_bytes(bytes).len() ==> is_lower_hex_char(#[trigger] hex_of_bytes(
                bytes,
            )[i]),
    decreases bytes.len(),
{
    if bytes.len() > 0 {
        lemma_hex_of_bytes_valid(bytes.drop_last());
    }
}

/// Lowercase hexadecimal rendering of the given bytes.
fn hex_string(bytes: &Vec<u8>) -> (r: String)
    ensures
        r@ == hex_of_bytes(bytes@),
{
    let mut out = String::new();
    let n: usize = bytes.len();
    let mut i: usize = 0;
    proof {
        assert(bytes@.subrange(0, 0) =~= Seq::<u8>::empty());
    }
    while i < n
        invariant
            i <= n,
            n == bytes@.len(),
            out@ == hex_of_bytes(bytes@.subrange(0, i as int)),
        decreases n - i,
    {
        let byte = bytes[i];
        out.push(hex_digit_char(byte / 16));
        out.push(hex_digit_char(byte % 16));
        proof {
            let cur = bytes@.subrange(0, i + 1);
            assert(cur.drop_last() =~= bytes@.subrange(0, i as int));
            assert(cur.last() == bytes@[i as int]);
            assert(out@ =~= hex_of_bytes(cur));
        }
        i = i + 1;
    }
    proof {
        assert(bytes@.subrange(0, n as int) =~= bytes@);
    }
    out
}

/// Randomly generated (probably) unique ID: 128 random bits rendered as 32
/// lowercase hexadecimal characters.
#[derive(Clone, PartialEq, Eq, PartialOrd, Ord, Hash, Debug)]
pub struct RndId {
    id: String,
}

impl View for RndId {
    type V = Seq<char>;

    closed spec fn view(&self) -> Seq<char> {
        self.id@
    }
}

impl RndId {
    /// A new, random ID.
    pub fn new() -> (r: RndId)
        ensures
            valid_id(r@),
    {
        let bytes = random_bytes();
        let id = hex_string(&bytes);
        proof {
            lemma_hex_of_bytes_valid(bytes@);
        }
        RndId { id }
    }

    /// The ID's text.
    pub fn as_str(&self) -> (r: &str)
        ensures
            r@ == self@,
    {
        self.id.as_str()
    }

    /// Decode an ID from text.
    ///
    /// The text is accepted exactly when it holds 32 hexadecimal
    /// characters of either case; the stored ID is its lowercase form.
    /// Text of any other length is rejected with a `Length` error at
    /// position 0; text of the right length with a character that is no
    /// hexadecimal digit is rejected with a `Symbol` error at the first
    /// such character.
    pub fn parse(s: &str) -> (r: Result<RndId, DecodeError>)
        ensures
            r is Ok <==> (s@.len() == 32 && (forall|i: int|
                0 <= i < 32 ==> is_hex_char(#[trigger] s@[i]))),
            r matches Ok(id) ==> id@ == lower_hex_view(s@) && valid_id(id@),
            s@.len() != 32 ==> r == Err::<RndId, DecodeError>(
                DecodeError { position: 0, kind: DecodeKind::Length },
            ),
            s@.len() == 32 ==> (r matches Err(e) ==> {
                &&& e.kind is Symbol
                &&& 0 <= e.position < 32
                &&& !is_hex_char(s@[e.position as int])
                &&& forall|j: int| 0 <= j < e.position ==> is_hex_char(#[trigger] s@[j])
            }),
    {
        let n: usize = s.unicode_len();
        if n != 32 {
            return Err(DecodeError { position: 0, kind: DecodeKind::Length });
        }
        let mut id = String::new();
        let mut i: usize = 0;
        proof {
            assert(id@ =~= lower_hex_view(s@).subrange(0, 0));
        }
        while i < 32
            invariant
                i <= 32,
                s@.len() == 32,
                id@ == lower_hex_view(s@).subrange(0, i as int),
                forall|j: int| 0 <= j < i ==> is_hex_char(#[trigger] s@[j]),
            decreases 32 - i,
        {
            let c = s.get_char(i);
            if !is_hex_char_exec(c) {
                return Err(DecodeError { position: i, kind: DecodeKind::Symbol });
            }
            id.push(lower_char(c));
            proof {
                assert(id@ =~= lower_hex_view(s@).subrange(0, i + 1));
            }
            i = i + 1;
        }
        proof {
            assert(id@ =~= lower_hex_view(s@));
            assert forall|j: int| 0 <= j < 32 implies is_lower_hex_char(#[trigger] id@[j]) by {
                assert(id@[j] == to_lower_hex(s@[j]));
                assert(is_hex_char(s@[j]));
            }
        }
        Ok(RndId { id })
    }
}

impl core::str::FromStr for RndId {
    type Err = DecodeError;

    fn from_str(s: &str) -> Result<RndId, DecodeError> {
        RndId::parse(s)
    }
}

} // verus!
