//! The single token: who owns it and which interfaces it answers to.

use vstd::prelude::*;
use vstd::slice::{slice_subrange, slice_to_vec};
use vstd::string::StringSliceAdditionalSpecFns;
use crate::state::{Contract, ADDRESS_BYTES};

verus! {

/// Length of a token identifier in bytes: a 256-bit number, most significant
/// byte first.
pub const TOKEN_ID_BYTES: usize = 32;

/// Identifier of the interface-detection interface.
pub const INTERFACE_DETECTION: u32 = 0x01ffc9a7;

/// Identifier of the non-fungible token interface.
pub const INTERFACE_TOKEN: u32 = 0x80ac58cd;

/// Identifier of the token metadata interface.
pub const INTERFACE_METADATA: u32 = 0x5b5e139f;

/// The number that `bytes` spell, most significant byte first.
pub open spec fn be_value(bytes: Seq<u8>) -> nat
    decreases bytes.len(),
{
    if bytes.len() == 0 {
        0
    } else {
        256 * be_value(bytes.drop_last()) + bytes.last() as nat
    }
}

/// The seed that minting gives the random number generator.
pub const MINT_SEED: u32 = 1;

/// The only token there is.
pub const TOKEN_ID: u8 = 1;

/// The number of tokens that `account` holds when `owner` is the recorded
/// owner: one for the owner, none for anybody else.
pub open spec fn balance_spec(owner: Seq<u8>, account: Seq<u8>) -> u64 {
    if account == owner {
        1
    } else {
        0
    }
}

/// No byte of `bytes` is set.
pub open spec fn all_zero(bytes: Seq<u8>) -> bool {
    forall|i: int| 0 <= i < bytes.len() ==> bytes[i] == 0
}

/// What `owner_of` answers for an identifier other than 1.
pub open spec fn invalid_token_message() -> Seq<u8> {
    "Invalid token ID".spec_bytes()
}

/// What `owner_of` answers before the token is minted.
pub open spec fn not_minted_message() -> Seq<u8> {
    "Token not minted".spec_bytes()
}

/// `be_value` of a sequence is 1 exactly when its last byte is 1 and all
/// bytes before it are 0.
pub proof fn lemma_be_value_one(bytes: Seq<u8>)
    requires
        bytes.len() > 0,
    ensures
        be_value(bytes) == 1 <==> (bytes.last() == 1 && all_zero(bytes.drop_last())),
{
    lemma_be_value_zero(bytes.drop_last());
}

/// `be_value` of a sequence is 0 exactly when all its bytes are 0.
pub proof fn lemma_be_value_zero(bytes: Seq<u8>)
    ensures
        be_value(bytes) == 0 <==> all_zero(bytes),
    decreases bytes.len(),
{
    if bytes.len() > 0 {
        lemma_be_value_zero(bytes.drop_last());
        if all_zero(bytes) {
            assert(bytes.last() == 0);
            assert forall|i: int| 0 <= i < bytes.drop_last().len() implies bytes.drop_last()[i]
                == 0 by {
                assert(bytes.drop_last()[i] == bytes[i]);
            }
        }
        if be_value(bytes) == 0 {
            assert forall|i: int| 0 <= i < bytes.len() implies bytes[i] == 0 by {
                if i < bytes.len() - 1 {
                    assert(bytes.drop_last()[i] == bytes[i]);
                }
            }
        }
    }
}

/// Four bytes spell `b0 * 2^24 + b1 * 2^16 + b2 * 2^8 + b3`.
proof fn lemma_be_value_four(bytes: Seq<u8>)
    requires
        bytes.len() == 4,
    ensures
        be_value(bytes) == bytes[0] * 0x100_0000 + bytes[1] * 0x1_0000 + bytes[2] * 0x100 + bytes[3],
{
    reveal_with_fuel(be_value, 5);
    let b3 = bytes.drop_last();
    let b2 = b3.drop_last();
    let b1 = b2.drop_last();
    assert(b1.drop_last().len() == 0);
}

fn is_all_zero(bytes: &[u8]) -> (zero: bool)
    ensures
        zero == all_zero(bytes@),
{
    let mut i: usize = 0;
    while i < bytes.len()
        invariant
            i <= bytes.len(),
            forall|k: int| 0 <= k < i ==> bytes[k] == 0,
        decreases bytes.len() - i,
    {
        if bytes[i] != 0 {
            return false;
        }
        i += 1;
    }
    true
}

fn same_bytes(a: &[u8], b: &[u8]) -> (same: bool)
    ensures
        same == (a@ == b@),
{
    if a.len() != b.len() {
        return false;
    }
    let mut i: usize = 0;
    while i < a.len()
        invariant
            i <= a.len(),
            a.len() == b.len(),
            forall|k: int| 0 <= k < i ==> a[k] == b[k],
        decreases a.len() - i,
    {
        if a[i] != b[i] {
            return false;
        }
        i += 1;
    }
    assert(a@ =~= b@);
    true
}

impl Contract {
    /// Whether the interface with the given four-byte identifier is
    /// supported: interface detection, the token interface and its metadata
    /// extension are.
    pub fn supports_interface(&self, interface: [u8; 4]) -> (supported: bool)
        ensures
            supported == (be_value(interface@) == INTERFACE_DETECTION || be_value(interface@)
                == INTERFACE_TOKEN || be_value(interface@) == INTERFACE_METADATA),
    {
        let id: u32 = ((interface[0] as u32 * 256 + interface[1] as u32) * 256
            + interface[2] as u32) * 256 + interface[3] as u32;
        proof {
            lemma_be_value_four(interface@);
        }
        id == INTERFACE_DETECTION || id == INTERFACE_TOKEN || id == INTERFACE_METADATA
    }

    /// Mints the single token to `to` and seeds the random number generator
    /// with 1. The table is left as it is.
    pub fn mint(&mut self, to: [u8; ADDRESS_BYTES])
        ensures
            final(self)@.owner == to@,
            final(self)@.rng_seed == MINT_SEED,
            final(self)@.q_table == old(self)@.q_table,
    {
        self.owner = to;
        self.rng_seed = MINT_SEED;
    }

    /// The token's symbol.
    pub fn symbol(&self) -> (text: String)
        ensures
            text@ == "QMAZE"@,
    {
        "QMAZE".to_string()
    }

    /// The token's name.
    pub fn name(&self) -> (text: String)
        ensures
            text@ == "Q-Learning Maze NFT"@,
    {
        "Q-Learning Maze NFT".to_string()
    }

    /// A sentence about the token.
    pub fn description(&self) -> (text: String)
        ensures
            text@
                == "A maze solved using Q-learning algorithm. The arrows show the learned optimal path."@,
    {
        "A maze solved using Q-learning algorithm. The arrows show the learned optimal path.".to_string()
    }

    /// The number of tokens that `owner` holds: 1 for the recorded owner, 0
    /// for any other address.
    pub fn balance_of(&self, owner: [u8; ADDRESS_BYTES]) -> (balance: u64)
        ensures
            balance == balance_spec(self@.owner, owner@),
    {
        if same_bytes(&owner, &self.owner) {
            1
        } else {
            0
        }
    }

    /// The owner of the token `token_id`, a 256-bit number given most
    /// significant byte first.
    ///
    /// An identifier other than 1 is refused with `Invalid token ID`;
    /// identifier 1 is refused with `Token not minted` while the recorded
    /// owner is the zero address.
    pub fn owner_of(&self, token_id: [u8; TOKEN_ID_BYTES]) -> (owner: Result<
        [u8; ADDRESS_BYTES],
        Vec<u8>,
    >)
        ensures
            be_value(token_id@) != TOKEN_ID ==> owner is Err && owner->Err_0@
                == invalid_token_message(),
            be_value(token_id@) == TOKEN_ID && all_zero(self@.owner) ==> owner is Err
                && owner->Err_0@ == not_minted_message(),
            be_value(token_id@) == TOKEN_ID && !all_zero(self@.owner) ==> owner is Ok
                && owner->Ok_0@ == self@.owner,
    {
        proof {
            lemma_be_value_one(token_id@);
            assert(token_id@.drop_last() =~= token_id@.subrange(0, TOKEN_ID_BYTES - 1));
        }
        let head = slice_subrange(token_id.as_slice(), 0, TOKEN_ID_BYTES - 1);
        if token_id[TOKEN_ID_BYTES - 1] != TOKEN_ID || !is_all_zero(head) {
            return Err(slice_to_vec("Invalid token ID".as_bytes()));
        }
        if is_all_zero(self.owner.as_slice()) {
            return Err(slice_to_vec("Token not minted".as_bytes()));
        }
        Ok(self.owner)
    }
}

} // verus!
