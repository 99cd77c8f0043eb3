use vstd::prelude::*;

verus! {

/// Why signing, authorizing or executing failed.
#[derive(Debug, Clone, Copy, PartialEq, Eq, Structural)]
pub enum Error {
    /// The message holds more field elements than the network allows.
    MessageTooLarge,
    /// A message's bits could not be packed into field elements.
    PackingFailed,
    /// No address can be derived from the compute key.
    AddressDerivationFailed,
    /// The challenge hash rejected its input.
    HashToScalarFailed,
    /// The kernel yields no signature message.
    SignatureMessageFailed,
    /// A non-noop input slot has no private key left to sign it.
    MissingPrivateKey,
    /// The kernel yields no transaction id.
    TransactionIdFailed,
    /// The program circuit rejected its inputs.
    ProgramExecutionFailed,
    /// An output record could not be encrypted.
    RecordEncryptionFailed,
    /// The inner proof could not be produced.
    InnerProofFailed,
    /// A freshly made inner proof did not pass its own check: a fault of the
    /// proving backend, not of the input.
    InnerProofSelfCheckFault,
    /// The outer proof could not be produced.
    OuterProofFailed,
}

} // verus!
