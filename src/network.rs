use vstd::prelude::*;

use crate::pipeline::{
    InnerPrivateVariables, InnerPrivateView, InnerPublicVariables, InnerPublicView,
    OuterPrivateVariables, OuterPrivateView, OuterPublicVariables, OuterPublicView,
};

verus! {

/// A network configuration: the group, scalar and base field it signs over, the
/// hashing and address derivation it uses, its record and program machinery, and
/// the two proof systems (inner and outer) that a transaction is proved with.
///
/// Every operation is described by a spec function of the same name, prefixed
/// with `spec_`. The proof functions are the algebraic facts an implementation
/// must establish for the signature scheme to be sound and complete.
pub trait Network: Sized {
    /// An element of the scalar field.
    type Scalar: Copy;
    /// An element of the base field (what messages and hashes are made of).
    type Field: Copy;
    /// A group element.
    type Group: Copy;
    /// The kernel of a transaction: fee, memo and record commitments.
    type Kernel;
    /// A plaintext record.
    type Record;
    /// A record encrypted for its owner.
    type EncryptedRecord;
    /// A ledger membership attestation for the input records.
    type LedgerProof;
    /// A program that a transaction runs.
    type Executable;
    /// The trace of one program run.
    type Execution;
    /// A proof of either proof system.
    type Proof;

    /// The largest number of field elements a signed message may hold.
    spec fn spec_max_data_size_in_fields() -> nat;

    fn max_data_size_in_fields() -> (r: usize)
        ensures
            r as nat == Self::spec_max_data_size_in_fields(),
    ;

    /// The fixed number of input-record slots of a transition.
    spec fn spec_num_input_records() -> nat;

    fn num_input_records() -> (r: usize)
        ensures
            r as nat == Self::spec_num_input_records(),
    ;

    /// How many bits of data one field element safely carries.
    spec fn spec_size_in_data_bits() -> nat;

    fn size_in_data_bits() -> (r: usize)
        ensures
            r as nat == Self::spec_size_in_data_bits(),
            r > 0,
    ;

    /// `s * G` for the group generator `G`.
    spec fn spec_g_scalar_multiply(s: Self::Scalar) -> Self::Group;

    fn g_scalar_multiply(s: &Self::Scalar) -> (r: Self::Group)
        ensures
            r == Self::spec_g_scalar_multiply(*s),
    ;

    spec fn spec_group_add(a: Self::Group, b: Self::Group) -> Self::Group;

    fn group_add(a: &Self::Group, b: &Self::Group) -> (r: Self::Group)
        ensures
            r == Self::spec_group_add(*a, *b),
    ;

    /// `g * s` for a group element `g`.
    spec fn spec_group_scalar_mul(g: Self::Group, s: Self::Scalar) -> Self::Group;

    fn group_scalar_mul(g: &Self::Group, s: &Self::Scalar) -> (r: Self::Group)
        ensures
            r == Self::spec_group_scalar_mul(*g, *s),
    ;

    spec fn spec_scalar_mul(a: Self::Scalar, b: Self::Scalar) -> Self::Scalar;

    fn scalar_mul(a: &Self::Scalar, b: &Self::Scalar) -> (r: Self::Scalar)
        ensures
            r == Self::spec_scalar_mul(*a, *b),
    ;

    spec fn spec_scalar_sub(a: Self::Scalar, b: Self::Scalar) -> Self::Scalar;

    fn scalar_sub(a: &Self::Scalar, b: &Self::Scalar) -> (r: Self::Scalar)
        ensures
            r == Self::spec_scalar_sub(*a, *b),
    ;

    fn scalar_eq(a: &Self::Scalar, b: &Self::Scalar) -> (r: bool)
        ensures
            r == (*a == *b),
    ;

    fn group_eq(a: &Self::Group, b: &Self::Group) -> (r: bool)
        ensures
            r == (*a == *b),
    ;

    /// The x-coordinate of a group element, as a base field element.
    spec fn spec_to_x_coordinate(g: Self::Group) -> Self::Field;

    fn to_x_coordinate(g: &Self::Group) -> (r: Self::Field)
        ensures
            r == Self::spec_to_x_coordinate(*g),
    ;

    /// `(nonce - challenge * sk) * G + (sk * G) * challenge == nonce * G`:
    /// the identity that makes a Schnorr response open its commitment.
    proof fn lemma_response_opens_commitment(
        nonce: Self::Scalar,
        challenge: Self::Scalar,
        sk: Self::Scalar,
    )
        ensures
            Self::spec_group_add(
                Self::spec_g_scalar_multiply(
                    Self::spec_scalar_sub(nonce, Self::spec_scalar_mul(challenge, sk)),
                ),
                Self::spec_group_scalar_mul(Self::spec_g_scalar_multiply(sk), challenge),
            ) == Self::spec_g_scalar_multiply(nonce),
    ;

    /// Hash a sequence of field elements to a scalar; `None` where the input is
    /// not accepted.
    spec fn spec_hash_to_scalar(input: Seq<Self::Field>) -> Option<Self::Scalar>;

    fn hash_to_scalar(input: &Vec<Self::Field>) -> (r: Option<Self::Scalar>)
        ensures
            r == Self::spec_hash_to_scalar(input@),
    ;

    /// The address of the compute key `(pk_sig, pr_sig)`, where one exists.
    spec fn spec_address_from_compute_key(pk_sig: Self::Group, pr_sig: Self::Group) -> Option<
        Self::Group,
    >;

    fn address_from_compute_key(pk_sig: &Self::Group, pr_sig: &Self::Group) -> (r: Option<
        Self::Group,
    >)
        ensures
            r == Self::spec_address_from_compute_key(*pk_sig, *pr_sig),
    ;

    /// Read little-endian bits as a field element; `None` where they do not
    /// make one.
    spec fn spec_field_from_bits_le(bits: Seq<bool>) -> Option<Self::Field>;

    fn field_from_bits_le(bits: &Vec<bool>) -> (r: Option<Self::Field>)
        ensures
            r == Self::spec_field_from_bits_le(bits@),
    ;

    /// The canonical message that authorizes a kernel.
    spec fn spec_signature_message(kernel: Self::Kernel) -> Option<Seq<Self::Field>>;

    fn signature_message(kernel: &Self::Kernel) -> (r: Option<Vec<Self::Field>>)
        ensures
            match r {
                Some(m) => Self::spec_signature_message(*kernel) == Some(m@),
                None => Self::spec_signature_message(*kernel) is None,
            },
    ;

    /// The transaction identifier of a kernel.
    spec fn spec_transaction_id(kernel: Self::Kernel) -> Option<Self::Field>;

    fn transaction_id(kernel: &Self::Kernel) -> (r: Option<Self::Field>)
        ensures
            r == Self::spec_transaction_id(*kernel),
    ;

    spec fn spec_block_hash(ledger_proof: Self::LedgerProof) -> Self::Field;

    fn block_hash(ledger_proof: &Self::LedgerProof) -> (r: Self::Field)
        ensures
            r == Self::spec_block_hash(*ledger_proof),
    ;

    spec fn spec_program_id(executable: Self::Executable) -> Self::Field;

    fn program_id(executable: &Self::Executable) -> (r: Self::Field)
        ensures
            r == Self::spec_program_id(*executable),
    ;

    /// Run a program for the given transaction; `None` where its circuit
    /// rejects.
    spec fn spec_execute_program(executable: Self::Executable, transaction_id: Self::Field) -> Option<
        Self::Execution,
    >;

    fn execute_program(executable: &Self::Executable, transaction_id: &Self::Field) -> (r: Option<
        Self::Execution,
    >)
        ensures
            r == Self::spec_execute_program(*executable, *transaction_id),
    ;

    /// Encrypt a record under a randomizer, giving the ciphertext and its id.
    spec fn spec_encrypt_record(record: Self::Record, randomizer: Self::Scalar) -> Option<
        (Self::EncryptedRecord, Self::Field),
    >;

    fn encrypt_record(record: &Self::Record, randomizer: &Self::Scalar) -> (r: Option<
        (Self::EncryptedRecord, Self::Field),
    >)
        ensures
            r == Self::spec_encrypt_record(*record, *randomizer),
    ;

    /// The id `encrypt_record` reports is the id of the ciphertext it returns.
    proof fn lemma_encrypted_record_id(record: Self::Record, randomizer: Self::Scalar)
        requires
            Self::spec_encrypt_record(record, randomizer) is Some,
        ensures
            Self::spec_encrypted_record_id(Self::spec_encrypt_record(record, randomizer)->Some_0.0)
                == Self::spec_encrypt_record(record, randomizer)->Some_0.1,
    ;

    /// The id of a ciphertext, as `encrypt_record` reports it.
    spec fn spec_encrypted_record_id(record: Self::EncryptedRecord) -> Self::Field;

    fn encrypted_record_id(record: &Self::EncryptedRecord) -> (r: Self::Field)
        ensures
            r == Self::spec_encrypted_record_id(*record),
    ;

    /// The fixed identifier of the inner circuit.
    spec fn spec_inner_circuit_id() -> Self::Field;

    fn inner_circuit_id() -> (r: Self::Field)
        ensures
            r == Self::spec_inner_circuit_id(),
    ;

    spec fn spec_inner_prove(
        public: InnerPublicView<Self>,
        private: InnerPrivateView<Self>,
        randomness: Self::Scalar,
    ) -> Option<Self::Proof>;

    fn inner_prove(
        public: &InnerPublicVariables<Self>,
        private: &InnerPrivateVariables<Self>,
        randomness: &Self::Scalar,
    ) -> (r: Option<Self::Proof>)
        ensures
            r == Self::spec_inner_prove(
            (InnerPublicView {
                transaction_id: public.transaction_id,
                block_hash: public.block_hash,
                encrypted_record_ids: public.encrypted_record_ids@,
                program_id: public.program_id,
            }),
            (InnerPrivateView {
                kernel: private.kernel,
                input_records: private.input_records@,
                ledger_proof: private.ledger_proof,
                signatures: private.signatures@,
                output_records: private.output_records@,
                encrypted_record_randomizers: private.encrypted_record_randomizers@,
            }),
            *randomness,
            ),
    ;

    /// Check an inner proof against its public variables; `None` where the
    /// check itself fails.
    spec fn spec_inner_verify(public: InnerPublicView<Self>, proof: Self::Proof) -> Option<bool>;

    fn inner_verify(public: &InnerPublicVariables<Self>, proof: &Self::Proof) -> (r: Option<bool>)
        ensures
            r == Self::spec_inner_verify(
            (InnerPublicView {
                transaction_id: public.transaction_id,
                block_hash: public.block_hash,
                encrypted_record_ids: public.encrypted_record_ids@,
                program_id: public.program_id,
            }),
            *proof,
            ),
    ;

    spec fn spec_outer_prove(
        public: OuterPublicView<Self>,
        private: OuterPrivateView<Self>,
        randomness: Self::Scalar,
    ) -> Option<Self::Proof>;

    fn outer_prove(
        public: &OuterPublicVariables<Self>,
        private: &OuterPrivateVariables<Self>,
        randomness: &Self::Scalar,
    ) -> (r: Option<Self::Proof>)
        ensures
            r == Self::spec_outer_prove(
            (OuterPublicView {
                inner: InnerPublicView {
                    transaction_id: public.inner.transaction_id,
                    block_hash: public.inner.block_hash,
                    encrypted_record_ids: public.inner.encrypted_record_ids@,
                    program_id: public.inner.program_id,
                },
                inner_circuit_id: public.inner_circuit_id,
            }),
            (OuterPrivateView {
                inner_proof: private.inner_proof,
                execution: private.execution,
            }),
            *randomness,
            ),
    ;

    /// An outer proof that the prover produces verifies against the public
    /// variables it was produced for.
    proof fn lemma_outer_proof_complete(
        public: OuterPublicView<Self>,
        private: OuterPrivateView<Self>,
        randomness: Self::Scalar,
    )
        requires
            Self::spec_outer_prove(public, private, randomness) is Some,
        ensures
            Self::spec_outer_verify(public, Self::spec_outer_prove(public, private, randomness)->Some_0)
                == Some(true),
    ;

    spec fn spec_outer_verify(public: OuterPublicView<Self>, proof: Self::Proof) -> Option<bool>;

    fn outer_verify(public: &OuterPublicVariables<Self>, proof: &Self::Proof) -> (r: Option<bool>)
        ensures
            r == Self::spec_outer_verify(
            (OuterPublicView {
                inner: InnerPublicView {
                    transaction_id: public.inner.transaction_id,
                    block_hash: public.inner.block_hash,
                    encrypted_record_ids: public.inner.encrypted_record_ids@,
                    program_id: public.inner.program_id,
                },
                inner_circuit_id: public.inner_circuit_id,
            }),
            *proof,
            ),
    ;
}

} // verus!
