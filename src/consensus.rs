use vstd::prelude::*;

use crate::types::{Body, Transaction};

verus! {

/// Why a transaction or a body was rejected.
#[derive(Clone, Copy, Debug, PartialEq, Eq, Structural)]
pub enum Error {
    /// The canonical encoding could not be produced.
    Serialization,
    TooManySigOpsInBody,
    TooManySigOpsInTransaction,
    BodyTooBig,
    TransactionTooBig,
}

/// Largest canonical encoding of a transaction, in bytes.
pub const TRANSACTION_SIZE_LIMIT: u64 = 1024 * 1024;

/// Most inputs (signature checks) in one transaction.
pub const TRANSACTION_SIGOPS_LIMIT: u64 = 8 * 1024;

/// Largest canonical encoding of a body, in bytes.
pub const BODY_SIZE_LIMIT: u64 = 8 * 1024 * 1024;

/// Most authorizations (signature checks) in one body.
pub const BODY_SIGOPS_LIMIT: u64 = 8 * 8 * 1024;

/// The limit schedule, indexed by chain height. Today it is the same at every height.
pub open spec fn spec_transaction_size_limit(height: u32) -> u64 {
    TRANSACTION_SIZE_LIMIT
}

pub open spec fn spec_transaction_sigops_limit(height: u32) -> u64 {
    TRANSACTION_SIGOPS_LIMIT
}

pub open spec fn spec_body_size_limit(height: u32) -> u64 {
    BODY_SIZE_LIMIT
}

pub open spec fn spec_body_sigops_limit(height: u32) -> u64 {
    BODY_SIGOPS_LIMIT
}

/// The verdict on a transaction with `n_inputs` inputs whose encoding is `size` bytes long:
/// the sigops limit is checked first, then the size limit.
pub open spec fn transaction_verdict(height: u32, n_inputs: int, size: int) -> Result<(), Error> {
    if n_inputs > spec_transaction_sigops_limit(height) {
        Err(Error::TooManySigOpsInTransaction)
    } else if size > spec_transaction_size_limit(height) {
        Err(Error::TransactionTooBig)
    } else {
        Ok(())
    }
}

/// The verdict on a body with `n_authorizations` authorizations whose encoding is `size` bytes
/// long: the sigops limit is checked first, then the size limit.
pub open spec fn body_verdict(height: u32, n_authorizations: int, size: int) -> Result<(), Error> {
    if n_authorizations > spec_body_sigops_limit(height) {
        Err(Error::TooManySigOpsInBody)
    } else if size > spec_body_size_limit(height) {
        Err(Error::BodyTooBig)
    } else {
        Ok(())
    }
}

/// A transaction within the sigops limit is accepted exactly when its encoding is no longer
/// than the size limit; a longer one is rejected as too big.
pub proof fn lemma_transaction_size_boundary(height: u32, n_inputs: int, size: int)
    requires
        0 <= n_inputs <= spec_transaction_sigops_limit(height),
        0 <= size,
    ensures
        transaction_verdict(height, n_inputs, size) is Ok <==> size <= spec_transaction_size_limit(height),
        size > spec_transaction_size_limit(height) ==> transaction_verdict(height, n_inputs, size)
            == Err::<(), Error>(Error::TransactionTooBig),
{
}

/// A transaction with as many inputs as the sigops limit passes that check; one more input
/// fails it, whatever the size.
pub proof fn lemma_transaction_sigops_boundary(height: u32, size: int)
    ensures
        transaction_verdict(height, spec_transaction_sigops_limit(height) as int, size)
            != Err::<(), Error>(Error::TooManySigOpsInTransaction),
        transaction_verdict(height, spec_transaction_sigops_limit(height) + 1, size)
            == Err::<(), Error>(Error::TooManySigOpsInTransaction),
{
}

/// A body with as many authorizations as the sigops limit passes that check; one more fails
/// it, whatever the size.
pub proof fn lemma_body_sigops_boundary(height: u32, size: int)
    ensures
        body_verdict(height, spec_body_sigops_limit(height) as int, size)
            != Err::<(), Error>(Error::TooManySigOpsInBody),
        body_verdict(height, spec_body_sigops_limit(height) + 1, size)
            == Err::<(), Error>(Error::TooManySigOpsInBody),
{
}

/// A body within the sigops limit is accepted exactly when its encoding is no longer than the
/// size limit; a longer one is rejected as too big.
pub proof fn lemma_body_size_boundary(height: u32, n_authorizations: int, size: int)
    requires
        0 <= n_authorizations <= spec_body_sigops_limit(height),
        0 <= size,
    ensures
        body_verdict(height, n_authorizations, size) is Ok <==> size <= spec_body_size_limit(height),
        size > spec_body_size_limit(height) ==> body_verdict(height, n_authorizations, size)
            == Err::<(), Error>(Error::BodyTooBig),
{
}

/// The sidechain's consensus rules. They keep no state of their own.
#[derive(Clone, Copy, Debug)]
pub struct ThunderState;

impl ThunderState {
    pub fn new() -> (r: ThunderState) {
        ThunderState
    }

    pub fn transaction_size_limit(height: u32) -> (r: u64)
        ensures
            r == spec_transaction_size_limit(height),
    {
        TRANSACTION_SIZE_LIMIT
    }

    pub fn transaction_sigops_limit(height: u32) -> (r: u64)
        ensures
            r == spec_transaction_sigops_limit(height),
    {
        TRANSACTION_SIGOPS_LIMIT
    }

    pub fn body_size_limit(height: u32) -> (r: u64)
        ensures
            r == spec_body_size_limit(height),
    {
        BODY_SIZE_LIMIT
    }

    pub fn body_sigops_limit(height: u32) -> (r: u64)
        ensures
            r == spec_body_sigops_limit(height),
    {
        BODY_SIGOPS_LIMIT
    }

    /// Checks a transaction against the limits at `height`; `serialized` is its canonical
    /// encoding.
    pub fn validate_filled_transaction(
        &self,
        height: u32,
        transaction: &Transaction,
        serialized: &[u8],
    ) -> (r: Result<(), Error>)
        ensures
            r == transaction_verdict(height, transaction.inputs@.len() as int, serialized@.len() as int),
    {
        if transaction.inputs.len() as u64 > ThunderState::transaction_sigops_limit(height) {
            return Err(Error::TooManySigOpsInTransaction);
        }
        if serialized.len() as u64 > ThunderState::transaction_size_limit(height) {
            return Err(Error::TransactionTooBig);
        }
        Ok(())
    }

    /// Checks a body against the limits at `height`; `serialized` is its canonical encoding.
    pub fn validate_body(&self, height: u32, body: &Body, serialized: &[u8]) -> (r: Result<(), Error>)
        ensures
            r == body_verdict(height, body.authorizations@.len() as int, serialized@.len() as int),
    {
        if body.authorizations.len() as u64 > ThunderState::body_sigops_limit(height) {
            return Err(Error::TooManySigOpsInBody);
        }
        if serialized.len() as u64 > ThunderState::body_size_limit(height) {
            return Err(Error::BodyTooBig);
        }
        Ok(())
    }

    /// Applies a valid body to the chain state. The current rules keep no state of their
    /// own, so there is nothing to apply and nothing can fail.
    pub fn connect_body(&self, height: u32, body: &Body) -> (r: Result<(), Error>)
        ensures
            r == Ok::<(), Error>(()),
    {
        Ok(())
    }
}

} // verus!
