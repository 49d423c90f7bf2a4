//! What the service itself answers to the engine, and how it makes the
//! token that guards its control interface.

use vstd::prelude::*;
use vstd::std_specs::hash::*;

use crate::config::LocalConfig;
use crate::ident::{Address, Identity};
use crate::inet::InetAddress;

verus! {

broadcast use vstd::std_specs::hash::group_hash_axioms;

/// The endpoint that `entropy` picks from `candidates`: none if there are
/// no candidates, and else the candidate at the position that is the
/// remainder of `entropy` by their number.
pub open spec fn picked(candidates: Seq<InetAddress>, entropy: int) -> Option<InetAddress> {
    if candidates.len() == 0 {
        None
    } else {
        Some(candidates[entropy % candidates.len() as int])
    }
}

/// Whatever the entropy is, what is picked from a list is one of the list,
/// and something is picked exactly if the list is not empty.
pub proof fn lemma_picked_is_member(candidates: Seq<InetAddress>, entropy: int)
    requires
        0 <= entropy,
    ensures
        picked(candidates, entropy) is None <==> candidates.len() == 0,
        picked(candidates, entropy) matches Some(a) ==> candidates.contains(a),
{
    if candidates.len() > 0 {
        let i = entropy % candidates.len() as int;
        assert(0 <= i < candidates.len()) by (nonlinear_arith)
            requires
                0 <= entropy,
                candidates.len() > 0,
                i == entropy % candidates.len() as int,
        ;
    }
}

/// Picks one of `candidates` with the help of a number that the caller
/// drew at random.
pub fn select_endpoint(candidates: &Vec<InetAddress>, entropy: usize) -> (r: Option<InetAddress>)
    ensures
        r == picked(candidates@, entropy as int),
        r is None <==> candidates@.len() == 0,
        r matches Some(a) ==> candidates@.contains(a),
{
    proof {
        lemma_picked_is_member(candidates@, entropy as int);
    }
    if candidates.len() == 0 {
        None
    } else {
        Some(candidates[entropy % candidates.len()])
    }
}

/// Looks up an endpoint at which to try the node `address`: one of the
/// fallback endpoints that the configuration lists for the node, picked
/// with the help of a number that the caller drew at random, or nothing if
/// the configuration lists none.
pub fn path_lookup(config: &LocalConfig, address: Address, entropy: usize) -> (r: Option<
    InetAddress,
>)
    ensures
        r == picked(config.fallback_endpoints(address), entropy as int),
        r is None <==> config.fallback_endpoints(address).len() == 0,
        r matches Some(a) ==> config.fallback_endpoints(address).contains(a),
{
    proof {
        lemma_picked_is_member(config.fallback_endpoints(address), entropy as int);
    }
    match config.virtual_.get(&address.0) {
        Some(node_config) => select_endpoint(&node_config.try_, entropy),
        None => None,
    }
}

/// Whether a physical address may be used to reach a node. The service
/// allows every path.
pub fn path_check(
    address: Address,
    id: &Identity,
    local_socket: i64,
    sock_addr: &InetAddress,
) -> (allowed: bool)
    ensures
        allowed,
{
    true
}

/// The letter that one random byte gives: a capital letter for a byte
/// above 127 and a small letter for any other, the letter at the position
/// that is the remainder of the byte by twenty-six.
pub open spec fn token_letter(b: u8) -> u8 {
    if b > 127 {
        (65 + b % 26) as u8
    } else {
        (97 + b % 26) as u8
    }
}

/// Whether `c` is a letter of the basic Latin alphabet.
pub open spec fn is_letter(c: u8) -> bool {
    (65 <= c <= 90) || (97 <= c <= 122)
}

/// Makes a token of letters from random bytes, one letter for each byte.
pub fn auth_token_letters(random: &[u8]) -> (token: Vec<u8>)
    ensures
        token@.len() == random@.len(),
        forall|i: int| 0 <= i < random@.len() ==> token@[i] == token_letter(random@[i]),
        forall|i: int| 0 <= i < token@.len() ==> is_letter(#[trigger] token@[i]),
{
    let mut token: Vec<u8> = Vec::new();
    let mut i: usize = 0;
    while i < random.len()
        invariant
            i <= random@.len(),
            token@.len() == i,
            forall|k: int| 0 <= k < i ==> token@[k] == token_letter(random@[k]),
            forall|k: int| 0 <= k < i ==> is_letter(#[trigger] token@[k]),
        decreases random@.len() - i,
    {
        let b = random[i];
        if b > 127 {
            token.push(65 + b % 26);
        } else {
            token.push(97 + b % 26);
        }
        i += 1;
    }
    token
}

} // verus!
