//! The keyed checksum of the login handshake.
use vstd::prelude::*;

verus! {

/// The number of key pairs; a key id is below it.
pub const KEY_COUNT: u32 = 5;

pub open spec fn server_key_of(id: u32) -> u16 {
    if id == 0 {
        23019
    } else if id == 1 {
        32037
    } else if id == 2 {
        18789
    } else if id == 3 {
        16443
    } else {
        18189
    }
}

pub open spec fn client_key_of(id: u32) -> u16 {
    if id == 0 {
        32037
    } else if id == 1 {
        29295
    } else if id == 2 {
        13603
    } else if id == 3 {
        29533
    } else {
        21952
    }
}

/// The key the server adds to its confirmation.
pub fn server_key(id: u32) -> (r: u16)
    requires
        id < KEY_COUNT,
    ensures
        r == server_key_of(id),
{
    if id == 0 {
        23019
    } else if id == 1 {
        32037
    } else if id == 2 {
        18789
    } else if id == 3 {
        16443
    } else {
        18189
    }
}

/// The key the client adds to its confirmation.
pub fn client_key(id: u32) -> (r: u16)
    requires
        id < KEY_COUNT,
    ensures
        r == client_key_of(id),
{
    if id == 0 {
        32037
    } else if id == 1 {
        29295
    } else if id == 2 {
        13603
    } else if id == 3 {
        29533
    } else {
        21952
    }
}

pub open spec fn byte_sum(s: Seq<u8>) -> nat
    decreases s.len(),
{
    if s.len() == 0 {
        0
    } else {
        byte_sum(s.drop_last()) + s.last() as nat
    }
}

/// The hash of a robot's name: its byte sum times 1000, modulo 2^16.
pub open spec fn name_hash_of(name: Seq<u8>) -> u16 {
    ((byte_sum(name) * 1000) % 65536) as u16
}

/// The confirmation the server sends for a name hash and key id.
pub open spec fn server_confirmation_of(hash: u16, id: u32) -> u16 {
    ((hash + server_key_of(id)) % 65536) as u16
}

/// Whether the client's confirmation `c` matches the name hash: `c` minus
/// the client key, modulo 2^16, is the hash.
pub open spec fn confirmation_matches(hash: u16, id: u32, c: u16) -> bool {
    (c - client_key_of(id)) % 65536 == hash as int
}

/// The confirmation the client owes for a name hash and key id.
pub open spec fn required_confirmation_of(hash: u16, id: u32) -> u16 {
    ((hash + client_key_of(id)) % 65536) as u16
}

pub fn name_hash(name: &Vec<u8>) -> (r: u16)
    ensures
        r == name_hash_of(name@),
{
    let mut acc: u32 = 0;
    let mut i: usize = 0;
    while i < name.len()
        invariant
            i <= name@.len(),
            acc < 65536,
            acc as int == byte_sum(name@.subrange(0, i as int)) % 65536,
        decreases name@.len() - i,
    {
        assert(name@.subrange(0, i + 1).drop_last() =~= name@.subrange(0, i as int));
        let ghost prev = byte_sum(name@.subrange(0, i as int));
        proof {
            vstd::arithmetic::div_mod::lemma_add_mod_noop(prev as int, name@[i as int] as int, 65536);
            vstd::arithmetic::div_mod::lemma_mod_twice(name@[i as int] as int, 65536);
            vstd::arithmetic::div_mod::lemma_small_mod(name@[i as int] as nat, 65536);
        }
        acc = (acc + name[i] as u32) % 65536;
        i += 1;
    }
    assert(name@.subrange(0, i as int) =~= name@);
    proof {
        vstd::arithmetic::div_mod::lemma_mul_mod_noop_left(byte_sum(name@) as int, 1000, 65536);
    }
    ((acc * 1000) % 65536) as u16
}

pub fn server_confirmation(hash: u16, id: u32) -> (r: u16)
    requires
        id < KEY_COUNT,
    ensures
        r == server_confirmation_of(hash, id),
{
    ((hash as u32 + server_key(id) as u32) % 65536) as u16
}

pub fn check_confirmation(hash: u16, id: u32, c: u16) -> (r: bool)
    requires
        id < KEY_COUNT,
    ensures
        r == confirmation_matches(hash, id, c),
{
    let k = client_key(id);
    let diff: u16 = if c >= k { c - k } else { (c as u32 + 65536 - k as u32) as u16 };
    proof {
        if c < k {
            vstd::arithmetic::div_mod::lemma_mod_add_multiples_vanish((c - k) as int, 65536);
        }
        vstd::arithmetic::div_mod::lemma_small_mod(diff as nat, 65536);
    }
    diff == hash
}

/// A confirmation below 2^16 matches exactly when it is the one owed.
pub proof fn matches_iff_required(hash: u16, id: u32, c: u16)
    ensures
        confirmation_matches(hash, id, c) <==> c == required_confirmation_of(hash, id),
{
    let k = client_key_of(id) as int;
    if c >= k {
        vstd::arithmetic::div_mod::lemma_small_mod((c - k) as nat, 65536);
    } else {
        vstd::arithmetic::div_mod::lemma_mod_add_multiples_vanish((c - k) as int, 65536);
        vstd::arithmetic::div_mod::lemma_small_mod((c - k + 65536) as nat, 65536);
    }
}

} // verus!
