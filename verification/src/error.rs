//! The errors that the library reports.

use vstd::prelude::*;

verus! {

/// A configuration that is rejected before any cryptographic work is done.
#[derive(Debug, Clone, Copy, PartialEq, Eq, Structural)]
pub enum ConfigurationError {
    /// The precision budget is zero or wider than a plaintext word.
    Precision,
    /// The polynomial size is not a multiple of the number of boxes, so box
    /// boundaries would not line up.
    BoxAlignment,
    /// A lookup table does not hold one value for each box.
    TableSize,
    /// A message lies outside the `2^bit_precision` values of the budget.
    MessageDomain,
}

/// The operation of the cryptographic engine during which a failure arose.
#[derive(Debug, Clone, Copy, PartialEq, Eq, Structural)]
pub enum EngineOperation {
    /// Encrypting an encoded plaintext.
    Encrypt,
    /// Adding one ciphertext to another.
    Add,
    /// Allocating the buffer that a key switch writes into.
    Buffer,
    /// Switching a ciphertext to the key that the bootstrap expects.
    KeySwitch,
    /// Encrypting the accumulator trivially.
    Accumulator,
    /// Bootstrapping a ciphertext through the accumulator.
    Bootstrap,
    /// Decrypting a ciphertext.
    Decrypt,
}

/// A failure of an operation of the cryptographic engine. It ends the batch.
#[derive(Debug, PartialEq, Eq)]
pub enum EngineError {
    /// The engine refused the operation; `message` is the engine's own diagnostic.
    Refused { operation: EngineOperation, message: String },
    /// The sizes of the operands do not fit the operation; the engine was not called.
    Dimension { operation: EngineOperation },
}

/// Why a batch stopped.
#[derive(Debug, PartialEq, Eq)]
pub enum PipelineError {
    /// The configuration was rejected before any cryptographic work.
    Configuration(ConfigurationError),
    /// An operation of the cryptographic engine failed.
    Engine(EngineError),
}

impl EngineError {
    /// The operation during which the failure arose.
    pub open spec fn spec_operation(self) -> EngineOperation {
        match self {
            EngineError::Refused { operation, .. } => operation,
            EngineError::Dimension { operation } => operation,
        }
    }

    /// The engine itself refused the given operation.
    pub open spec fn refused_during(self, operation: EngineOperation) -> bool {
        self is Refused && self.spec_operation() == operation
    }

    /// The operation during which the failure arose.
    pub fn operation(&self) -> (operation: EngineOperation)
        ensures
            operation == self.spec_operation(),
    {
        match self {
            EngineError::Refused { operation, .. } => *operation,
            EngineError::Dimension { operation } => *operation,
        }
    }
}

} // verus!
