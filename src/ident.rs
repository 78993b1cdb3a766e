//! Public identifiers: the base-62 alphabet, random draws, and the
//! allocator that lengthens candidates as collisions occur.

use rand::Rng;
use vstd::prelude::*;

verus! {

/// Number of symbols in the identifier alphabet.
pub const BASE62_LEN: usize = 62;

/// Length of the first candidate identifier.
pub const ID_LEN: usize = 5;

/// Longest identifier the allocator will propose.
pub const MAX_ID_LEN: usize = 64;

/// The symbol of value `i` in the identifier alphabet: digits, then upper
/// case letters, then lower case letters.
pub open spec fn base62_char(i: int) -> char {
    if i < 10 {
        ('0' as int + i) as char
    } else if i < 36 {
        ('A' as int + (i - 10)) as char
    } else {
        ('a' as int + (i - 36)) as char
    }
}

/// Whether `c` belongs to the identifier alphabet.
pub open spec fn is_base62(c: char) -> bool {
    ('0' <= c && c <= '9') || ('A' <= c && c <= 'Z') || ('a' <= c && c <= 'z')
}

/// Whether every character of `s` belongs to the identifier alphabet.
pub open spec fn is_base62_id(s: Seq<char>) -> bool {
    forall|i: int| 0 <= i < s.len() ==> is_base62(#[trigger] s[i])
}

/// Returns the symbol of value `i` in the identifier alphabet.
pub fn base62_digit(i: usize) -> (c: char)
    requires
        i < BASE62_LEN,
    ensures
        c == base62_char(i as int),
        is_base62(c),
{
    let b: u8 = if i < 10 {
        48u8 + i as u8
    } else if i < 36 {
        65u8 + (i - 10) as u8
    } else {
        97u8 + (i - 36) as u8
    };
    b as char
}

/// Relies on rand::thread_rng and Rng::gen::<usize>: a freshly drawn
/// number; nothing is promised of its value.
#[verifier::external_body]
fn random_usize() -> usize {
    rand::thread_rng().gen::<usize>()
}

/// Draws a random identifier of `size` symbols of the alphabet.
pub fn generate_id(size: usize) -> (id: String)
    ensures
        id@.len() == size,
        is_base62_id(id@),
{
    let mut id = String::new();
    for i in 0..size
        invariant
            id@.len() == i,
            is_base62_id(id@),
    {
        let c = base62_digit(random_usize() % BASE62_LEN);
        id.push(c);
    }
    id
}

/// Proposes candidate identifiers: two at each length, starting at
/// `ID_LEN`, then one symbol longer, up to `MAX_ID_LEN`.
pub struct IdAllocator {
    len: usize,
    retried: bool,
}

impl IdAllocator {
    /// Length of the next candidate.
    pub closed spec fn candidate_len(&self) -> int {
        self.len as int
    }

    /// Whether one candidate of the current length was already proposed.
    pub closed spec fn retried(&self) -> bool {
        self.retried
    }

    /// Whether every length has been tried twice.
    pub open spec fn exhausted(&self) -> bool {
        self.candidate_len() > MAX_ID_LEN
    }

    /// How many candidates are still to come.
    pub open spec fn attempts_left(&self) -> nat {
        if self.exhausted() {
            0
        } else {
            (2 * (MAX_ID_LEN - self.candidate_len()) + if self.retried() {
                1int
            } else {
                2int
            }) as nat
        }
    }

    /// An allocator whose first candidate has `ID_LEN` symbols.
    pub fn new() -> (a: IdAllocator)
        ensures
            a.candidate_len() == ID_LEN,
            !a.retried(),
    {
        IdAllocator { len: ID_LEN, retried: false }
    }

    /// Returns the next candidate, or `None` once every length up to
    /// `MAX_ID_LEN` has been tried twice.
    pub fn next_candidate(&mut self) -> (r: Option<String>)
        ensures
            old(self).exhausted() ==> r is None && *final(self) == *old(self),
            !old(self).exhausted() ==> {
                &&& r is Some
                &&& r->0@.len() == old(self).candidate_len()
                &&& is_base62_id(r->0@)
                &&& final(self).retried() == !old(self).retried()
                &&& final(self).candidate_len() == if old(self).retried() {
                    old(self).candidate_len() + 1
                } else {
                    old(self).candidate_len()
                }
                &&& final(self).attempts_left() + 1 == old(self).attempts_left()
            },
    {
        if self.len > MAX_ID_LEN {
            return None;
        }
        let id = generate_id(self.len);
        if self.retried {
            self.len = self.len + 1;
            self.retried = false;
        } else {
            self.retried = true;
        }
        Some(id)
    }
}

} // verus!
