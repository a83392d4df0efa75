//! Candidate generation and identifier derivation.
//!
//! A candidate is a 32-byte block derived deterministically from a 64-bit
//! search index: the index as eight little-endian bytes, then bytes filled
//! with `((index >> (i % 8)) ^ i)` truncated to a byte.  An identifier is
//! the 32-character rendering of a digest's first 16 bytes: each byte
//! yields two letters of the alphabet `a..p`, most significant nibble
//! first.

use vstd::prelude::*;

verus! {

/// The letter that stands for a nibble value: `0` maps to `'a'`, ...,
/// `15` maps to `'p'`.
pub open spec fn nibble_letter(n: u8) -> char
    recommends
        n < 16,
{
    if n == 0 {
        'a'
    } else if n == 1 {
        'b'
    } else if n == 2 {
        'c'
    } else if n == 3 {
        'd'
    } else if n == 4 {
        'e'
    } else if n == 5 {
        'f'
    } else if n == 6 {
        'g'
    } else if n == 7 {
        'h'
    } else if n == 8 {
        'i'
    } else if n == 9 {
        'j'
    } else if n == 10 {
        'k'
    } else if n == 11 {
        'l'
    } else if n == 12 {
        'm'
    } else if n == 13 {
        'n'
    } else if n == 14 {
        'o'
    } else {
        'p'
    }
}

pub open spec fn high_nibble(b: u8) -> u8 {
    b / 16
}

pub open spec fn low_nibble(b: u8) -> u8 {
    b % 16
}

/// The byte at position `i` of the candidate block for `counter`.
pub open spec fn key_byte(counter: u64, i: int) -> u8
    recommends
        0 <= i < 32,
{
    if i < 8 {
        ((counter >> (8 * i) as u64) & 0xff) as u8
    } else {
        ((counter >> ((i % 8) as u64)) ^ (i as u64)) as u8
    }
}

/// The 32-byte candidate block derived from a search index.
pub open spec fn key_data_of(counter: u64) -> Seq<u8> {
    Seq::new(32, |i: int| key_byte(counter, i))
}

/// The 32-character identifier rendered from the first 16 bytes of a
/// digest: byte `i` yields the letters for its high and low nibbles.
pub open spec fn id_of(d: Seq<u8>) -> Seq<char>
    recommends
        d.len() >= 16,
{
    Seq::new(32, |i: int| if i % 2 == 0 {
        nibble_letter(high_nibble(d[i / 2]))
    } else {
        nibble_letter(low_nibble(d[i / 2]))
    })
}

/// Whether a digest's identifier starts with the given prefix.  This is
/// the naive definition that the executable test must agree with.
pub open spec fn matches_prefix(d: Seq<u8>, p: Seq<char>) -> bool
    recommends
        d.len() >= 16,
{
    p.is_prefix_of(id_of(d))
}

/// The letter for a nibble value, as executable code.
pub fn nibble_to_char(n: u8) -> (c: char)
    requires
        n < 16,
    ensures
        c == nibble_letter(n),
{
    if n == 0 {
        'a'
    } else if n == 1 {
        'b'
    } else if n == 2 {
        'c'
    } else if n == 3 {
        'd'
    } else if n == 4 {
        'e'
    } else if n == 5 {
        'f'
    } else if n == 6 {
        'g'
    } else if n == 7 {
        'h'
    } else if n == 8 {
        'i'
    } else if n == 9 {
        'j'
    } else if n == 10 {
        'k'
    } else if n == 11 {
        'l'
    } else if n == 12 {
        'm'
    } else if n == 13 {
        'n'
    } else if n == 14 {
        'o'
    } else {
        'p'
    }
}

/// Derives the candidate block for a search index: a total, deterministic
/// function, so two calls with the same index yield byte-identical blocks.
pub fn generate_key_data(counter: u64) -> (data: Vec<u8>)
    ensures
        data@ == key_data_of(counter),
        data@.len() == 32,
{
    let mut data: Vec<u8> = Vec::new();
    let mut i: u64 = 0;
    while i < 8
        invariant
            i <= 8,
            data@.len() == i,
            forall|j: int| 0 <= j < i ==> data@[j] == key_byte(counter, j),
        decreases 8 - i,
    {
        let b = ((counter >> (8 * i)) & 0xff) as u8;
        data.push(b);
        i += 1;
    }
    let mut i: u64 = 8;
    while i < 32
        invariant
            8 <= i <= 32,
            data@.len() == i,
            forall|j: int| 0 <= j < i ==> data@[j] == key_byte(counter, j),
        decreases 32 - i,
    {
        let b = #[verifier::truncate] (((counter >> (i % 8)) ^ i) as u8);
        data.push(b);
        i += 1;
    }
    proof {
        assert(data@ =~= key_data_of(counter));
    }
    data
}

/// The sixteen letters of the alphabet in order, as a string literal:
/// position `n` holds `nibble_letter(n)`.
proof fn lemma_alphabet_table(n: u8)
    requires
        n < 16,
    ensures
        "abcdefghijklmnop"@.len() == 16,
        "abcdefghijklmnop"@[n as int] == nibble_letter(n),
{
    reveal_strlit("abcdefghijklmnop");
}

/// Renders a digest as its 32-character identifier over the alphabet
/// `a..p`.
pub fn hash_to_extension_id(hash: &Vec<u8>) -> (id: String)
    requires
        hash@.len() >= 16,
    ensures
        id@ == id_of(hash@),
{
    let table = "abcdefghijklmnop";
    let mut id = String::new();
    let mut i: usize = 0;
    while i < 16
        invariant
            i <= 16,
            hash@.len() >= 16,
            table@ =~= "abcdefghijklmnop"@,
            id@ =~= id_of(hash@).take(2 * i),
        decreases 16 - i,
    {
        let b = hash[i];
        let hi = (b >> 4) as usize;
        let lo = (b & 0x0f) as usize;
        proof {
            assert((b >> 4) == high_nibble(b) && (b & 0x0f) == low_nibble(b)) by (bit_vector);
            lemma_alphabet_table((b >> 4));
            lemma_alphabet_table((b & 0x0f));
        }
        let ghost prev = id@;
        id.append(table.substring_char(hi, hi + 1));
        id.append(table.substring_char(lo, lo + 1));
        proof {
            assert(id@ =~= prev + seq![
                nibble_letter(high_nibble(hash@[i as int])),
                nibble_letter(low_nibble(hash@[i as int])),
            ]);
            assert(id@ =~= id_of(hash@).take(2 * (i + 1)));
        }
        i += 1;
    }
    proof {
        assert(id@ =~= id_of(hash@));
    }
    id
}

/// Tests whether the identifier of `hash` starts with `prefix`, nibble by
/// nibble and without building the identifier string.  Agrees with the
/// naive definition for every prefix; a prefix longer than 32 characters
/// never matches.
pub fn hash_matches_prefix_optimized(hash: &Vec<u8>, prefix: &str) -> (r: bool)
    requires
        hash@.len() >= 16,
    ensures
        r == matches_prefix(hash@, prefix@),
{
    let n = prefix.unicode_len();
    if n > 32 {
        return false;
    }
    let mut i: usize = 0;
    while i < n
        invariant
            i <= n <= 32,
            hash@.len() >= 16,
            n == prefix@.len(),
            forall|j: int| 0 <= j < i ==> prefix@[j] == id_of(hash@)[j],
        decreases n - i,
    {
        let c = prefix.get_char(i);
        let b = hash[i / 2];
        let nib = if i % 2 == 0 {
            b >> 4
        } else {
            b & 0x0f
        };
        proof {
            assert((b >> 4) == high_nibble(b) && (b & 0x0f) == low_nibble(b)) by (bit_vector);
        }
        let expected = nibble_to_char(nib);
        if c != expected {
            proof {
                assert(prefix@[i as int] != id_of(hash@)[i as int]);
                assert(!matches_prefix(hash@, prefix@));
            }
            return false;
        }
        i += 1;
    }
    proof {
        assert(prefix@ =~= id_of(hash@).subrange(0, n as int));
        assert(matches_prefix(hash@, prefix@));
    }
    true
}

/// The identifier of any digest has exactly 32 characters, each a letter
/// of the alphabet `a..p`.
pub proof fn lemma_identifier_shape(d: Seq<u8>)
    ensures
        id_of(d).len() == 32,
        forall|i: int| 0 <= i < 32 ==> 'a' <= #[trigger] id_of(d)[i] <= 'p',
{
    assert forall|i: int| 0 <= i < 32 implies 'a' <= #[trigger] id_of(d)[i] <= 'p' by {
        if i % 2 == 0 {
            assert(high_nibble(d[i / 2]) < 16);
        } else {
            assert(low_nibble(d[i / 2]) < 16);
        }
    }
}

/// The empty prefix matches every digest.
pub proof fn lemma_empty_prefix_matches(d: Seq<u8>)
    ensures
        matches_prefix(d, Seq::<char>::empty()),
{
    assert(Seq::<char>::empty() =~= id_of(d).subrange(0, 0));
}

/// A prefix longer than 32 characters matches no digest.
pub proof fn lemma_long_prefix_never_matches(d: Seq<u8>, p: Seq<char>)
    requires
        p.len() > 32,
    ensures
        !matches_prefix(d, p),
{
}

} // verus!
