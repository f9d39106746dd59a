//! The account facts the protocol reads, and the assertion helpers in front of
//! every operation: address matching, ownership, signatures and derived
//! (program-derived) addresses.

use vstd::prelude::*;
use crate::error::{InglError, MarketError};
use crate::codec::address_from_byte_vec;
use crate::codec::address_to_byte_vec;

verus! {

/// A 32-byte account address, held as four 64-bit words: `w0` holds the
/// address's bytes 0..8 in little-endian order, `w3` its bytes 24..32.
#[derive(Clone, Copy, Debug, Hash, PartialEq, Eq, Structural)]
pub struct Address {
    pub w0: u64,
    pub w1: u64,
    pub w2: u64,
    pub w3: u64,
}

/// The facts about a supplied runtime account that the protocol's
/// preconditions read: its address, the address of its owning program,
/// whether it signed the current operation, and its balance in native units.
#[derive(Clone, Copy, Debug, PartialEq, Eq, Structural)]
pub struct AccountFacts {
    pub key: Address,
    pub owner: Address,
    pub is_signer: bool,
    pub lamports: u64,
}

/// What `Pubkey::try_find_program_address` returns for one seed and a program
/// id: the derived address with its bump seed, or `None` when the seed is
/// unusable (longer than the runtime allows) or — statistically improbably —
/// no bump seed yields a valid address. A function of its arguments alone.
pub uninterp spec fn pda_of(seed: Seq<u8>, program_id: Address) -> Option<(Address, u8)>;

/// Relies on solana_program's `Pubkey::try_find_program_address`: for a fixed
/// seed list and program id the result is deterministic, computed from the
/// arguments alone by a chain of sha256 hashes over the seed, the bump and
/// the program id; it never panics.
#[verifier::external_body]
fn find_derived_address(seed: &[u8], program_id: &Address) -> (r: Option<(Address, u8)>)
    ensures
        r == pda_of(seed@, *program_id),
{
    let bytes = address_to_byte_vec(program_id);
    let pid = solana_program::pubkey::Pubkey::try_from(bytes.as_slice()).unwrap();
    solana_program::pubkey::Pubkey::try_find_program_address(&[seed], &pid)
        .map(|(key, bump)| (address_from_byte_vec(&key.to_bytes().to_vec(), 0), bump))
}

/// The outcome of holding a supplied key against the address derived from
/// `seed` under `program_id`.
pub open spec fn spec_assert_seed(key: Address, seed: Seq<u8>, program_id: Address) -> Result<
    (Address, u8),
    MarketError,
> {
    match pda_of(seed, program_id) {
        Some((derived, bump)) => if key == derived {
            Ok((derived, bump))
        } else {
            Err(MarketError::Ingl(InglError::AddressMismatch))
        },
        None => Err(MarketError::Ingl(InglError::OptionUnwrapError)),
    }
}

pub trait PubkeyHelpers: Sized {
    /// Accepts exactly when the two addresses are equal.
    fn assert_match(&self, a: &Self) -> (r: Result<(), MarketError>)
        ensures
            r is Ok <==> *self == *a,
            r is Err ==> r == Err::<(), MarketError>(MarketError::Ingl(InglError::AddressMismatch)),
    ;
}

impl PubkeyHelpers for Address {
    fn assert_match(&self, a: &Address) -> (r: Result<(), MarketError>) {
        if self == a {
            Ok(())
        } else {
            Err(InglError::AddressMismatch.utilize())
        }
    }
}

pub trait AccountInfoHelpers {
    spec fn facts(&self) -> AccountFacts;

    /// Accepts exactly when the account's address is `a`.
    fn assert_key_match(&self, a: &Address) -> (r: Result<(), MarketError>)
        ensures
            r is Ok <==> self.facts().key == *a,
            r is Err ==> r == Err::<(), MarketError>(MarketError::Ingl(InglError::AddressMismatch)),
    ;

    /// Accepts exactly when the account is owned by the program at `a`.
    fn assert_owner(&self, a: &Address) -> (r: Result<(), MarketError>)
        ensures
            r is Ok <==> self.facts().owner == *a,
            r is Err ==> r == Err::<(), MarketError>(MarketError::Ingl(InglError::AddressMismatch)),
    ;

    /// Accepts exactly when the account signed the current operation.
    fn assert_signer(&self) -> (r: Result<(), MarketError>)
        ensures
            r is Ok <==> self.facts().is_signer,
            r is Err ==> r == Err::<(), MarketError>(MarketError::MissingRequiredSignature),
    ;

    /// Accepts exactly when the account's address is the one derived from
    /// `seed` under `program_id`, and then returns that address with its bump
    /// seed.
    fn assert_seed(&self, program_id: &Address, seed: &[u8]) -> (r: Result<(Address, u8), MarketError>)
        ensures
            r == spec_assert_seed(self.facts().key, seed@, *program_id),
    ;
}

impl AccountInfoHelpers for AccountFacts {
    open spec fn facts(&self) -> AccountFacts {
        *self
    }

    fn assert_key_match(&self, a: &Address) -> (r: Result<(), MarketError>) {
        self.key.assert_match(a)
    }

    fn assert_owner(&self, a: &Address) -> (r: Result<(), MarketError>) {
        self.owner.assert_match(a)
    }

    fn assert_signer(&self) -> (r: Result<(), MarketError>) {
        if !self.is_signer {
            Err(MarketError::MissingRequiredSignature)
        } else {
            Ok(())
        }
    }

    fn assert_seed(&self, program_id: &Address, seed: &[u8]) -> (r: Result<(Address, u8), MarketError>) {
        match find_derived_address(seed, program_id) {
            Some((key, bump)) => {
                match self.key.assert_match(&key) {
                    Ok(()) => Ok((key, bump)),
                    Err(e) => Err(e),
                }
            }
            None => Err(InglError::OptionUnwrapError.utilize()),
        }
    }
}

pub trait OptionExt<T>: Sized {
    /// The optional value this holds.
    spec fn optional(&self) -> Option<T>;

    /// Turns an absent optional into the option-unwrap error; the original
    /// logged the message here, and logging is an effect of the runtime, not
    /// of the protocol.
    fn error_log(self, message: &str) -> (r: Result<T, MarketError>)
        ensures
            self.optional() matches Some(v) ==> r == Ok::<T, MarketError>(v),
            self.optional() is None ==> r == Err::<T, MarketError>(
                MarketError::Ingl(InglError::OptionUnwrapError),
            ),
    ;
}

impl<T> OptionExt<T> for Option<T> {
    open spec fn optional(&self) -> Option<T> {
        *self
    }

    fn error_log(self, _message: &str) -> (r: Result<T, MarketError>) {
        match self {
            Some(v) => Ok(v),
            None => Err(InglError::OptionUnwrapError.utilize()),
        }
    }
}

pub trait ResultExt {
    /// Hands the result back unchanged; the original logged the message here,
    /// and logging is an effect of the runtime, not of the protocol.
    fn error_log(self, message: &str) -> (r: Self) where Self: Sized
        ensures
            r == self,
    ;
}

impl<T, E> ResultExt for Result<T, E> {
    fn error_log(self, _message: &str) -> (r: Self) {
        self
    }
}

} // verus!
