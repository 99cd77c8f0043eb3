use vstd::prelude::*;

use crate::authorization::TransactionAuthorization;
use crate::error::Error;
use crate::network::Network;
use crate::pipeline::{
    InnerPrivateVariables, InnerPrivateView, InnerPublicVariables, InnerPublicView,
    OuterPrivateVariables, OuterPrivateView, OuterPublicVariables, OuterPublicView, DPC,
};
use crate::signature::Signature;

verus! {

/// The randomness one execution draws: a randomizer per output record, and
/// the blinding randomness of each of the two proofs.
pub struct ExecutionRandomness<N: Network> {
    pub record_randomizers: Vec<N::Scalar>,
    pub inner_proof: N::Scalar,
    pub outer_proof: N::Scalar,
}

/// What a transaction records of the ledger state and circuit it was proved
/// against.
pub struct TransactionMetadata<N: Network> {
    pub block_hash: N::Field,
    pub inner_circuit_id: N::Field,
}

/// A finished transaction: the kernel, its metadata, the encrypted output
/// records and the outer proof.
pub struct Transaction<N: Network> {
    pub kernel: N::Kernel,
    pub metadata: TransactionMetadata<N>,
    pub encrypted_records: Vec<N::EncryptedRecord>,
    pub proof: N::Proof,
}

pub struct TransactionView<N: Network> {
    pub kernel: N::Kernel,
    pub metadata: TransactionMetadata<N>,
    pub encrypted_records: Seq<N::EncryptedRecord>,
    pub proof: N::Proof,
}

impl<N: Network> View for Transaction<N> {
    type V = TransactionView<N>;

    open spec fn view(&self) -> TransactionView<N> {
        TransactionView {
            kernel: self.kernel,
            metadata: self.metadata,
            encrypted_records: self.encrypted_records@,
            proof: self.proof,
        }
    }
}

/// Every record encrypts under its randomizer.
pub open spec fn records_encrypt<N: Network>(records: Seq<N::Record>, randomizers: Seq<N::Scalar>) -> bool {
    forall|i: int|
        0 <= i < records.len() ==> #[trigger] N::spec_encrypt_record(records[i], randomizers[i]) is Some
}

pub open spec fn encrypted_records<N: Network>(records: Seq<N::Record>, randomizers: Seq<N::Scalar>) -> Seq<
    N::EncryptedRecord,
> {
    Seq::new(records.len(), |i: int| N::spec_encrypt_record(records[i], randomizers[i])->Some_0.0)
}

pub open spec fn encrypted_record_ids<N: Network>(
    records: Seq<N::Record>,
    randomizers: Seq<N::Scalar>,
) -> Seq<N::Field> {
    Seq::new(records.len(), |i: int| N::spec_encrypt_record(records[i], randomizers[i])->Some_0.1)
}

/// The outcome of executing an authorization: the stages run in order and the
/// first that fails decides the error.
pub open spec fn spec_execute<N: Network>(
    kernel: N::Kernel,
    input_records: Seq<N::Record>,
    output_records: Seq<N::Record>,
    signatures: Seq<Signature<N>>,
    executable: N::Executable,
    ledger_proof: N::LedgerProof,
    randomizers: Seq<N::Scalar>,
    inner_randomness: N::Scalar,
    outer_randomness: N::Scalar,
) -> Result<TransactionView<N>, Error> {
    let block_hash = N::spec_block_hash(ledger_proof);
    match N::spec_transaction_id(kernel) {
        None => Err(Error::TransactionIdFailed),
        Some(transaction_id) => match N::spec_execute_program(executable, transaction_id) {
            None => Err(Error::ProgramExecutionFailed),
            Some(execution) => if !records_encrypt::<N>(output_records, randomizers) {
                Err(Error::RecordEncryptionFailed)
            } else {
                let inner_public = InnerPublicView {
                    transaction_id,
                    block_hash,
                    encrypted_record_ids: encrypted_record_ids::<N>(output_records, randomizers),
                    program_id: N::spec_program_id(executable),
                };
                let inner_private = InnerPrivateView {
                    kernel,
                    input_records,
                    ledger_proof,
                    signatures,
                    output_records,
                    encrypted_record_randomizers: randomizers.take(output_records.len() as int),
                };
                match N::spec_inner_prove(inner_public, inner_private, inner_randomness) {
                    None => Err(Error::InnerProofFailed),
                    Some(inner_proof) => if N::spec_inner_verify(inner_public, inner_proof) != Some(
                        true,
                    ) {
                        Err(Error::InnerProofSelfCheckFault)
                    } else {
                        let outer_public = OuterPublicView {
                            inner: inner_public,
                            inner_circuit_id: N::spec_inner_circuit_id(),
                        };
                        let outer_private = OuterPrivateView { inner_proof, execution };
                        match N::spec_outer_prove(outer_public, outer_private, outer_randomness) {
                            None => Err(Error::OuterProofFailed),
                            Some(proof) => Ok(
                                TransactionView {
                                    kernel,
                                    metadata: TransactionMetadata {
                                        block_hash,
                                        inner_circuit_id: N::spec_inner_circuit_id(),
                                    },
                                    encrypted_records: encrypted_records::<N>(
                                        output_records,
                                        randomizers,
                                    ),
                                    proof,
                                },
                            ),
                        }
                    }
                }
            }
        },
    }
}

/// Encrypt each record under its randomizer, giving the ciphertexts, their ids
/// and the randomizers used.
fn encrypt_records<N: Network>(records: &Vec<N::Record>, randomizers: &Vec<N::Scalar>) -> (r: Option<
    (Vec<N::EncryptedRecord>, Vec<N::Field>, Vec<N::Scalar>),
>)
    requires
        randomizers@.len() >= records@.len(),
    ensures
        r is Some <==> records_encrypt::<N>(records@, randomizers@),
        r matches Some((encrypted, ids, used)) ==> {
            &&& encrypted@ == encrypted_records::<N>(records@, randomizers@)
            &&& ids@ == encrypted_record_ids::<N>(records@, randomizers@)
            &&& used@ == randomizers@.take(records@.len() as int)
        },
{
    let mut encrypted: Vec<N::EncryptedRecord> = Vec::new();
    let mut ids: Vec<N::Field> = Vec::new();
    let mut used: Vec<N::Scalar> = Vec::new();
    let mut i: usize = 0;
    while i < records.len()
        invariant
            randomizers@.len() >= records@.len(),
            i <= records@.len(),
            encrypted@.len() == i,
            ids@.len() == i,
            used@ == randomizers@.take(i as int),
            forall|j: int|
                0 <= j < i ==> N::spec_encrypt_record(records@[j], randomizers@[j]) == Some(
                    (encrypted@[j], ids@[j]),
                ),
        decreases records@.len() - i,
    {
        match N::encrypt_record(&records[i], &randomizers[i]) {
            Some((ciphertext, id)) => {
                encrypted.push(ciphertext);
                ids.push(id);
                used.push(randomizers[i]);
                assert(used@ =~= randomizers@.take(i + 1));
            },
            None => {
                assert(!(N::spec_encrypt_record(records@[i as int], randomizers@[i as int]) is Some));
                return None;
            },
        }
        i = i + 1;
    }
    assert(encrypted@ =~= encrypted_records::<N>(records@, randomizers@));
    assert(ids@ =~= encrypted_record_ids::<N>(records@, randomizers@));
    Some((encrypted, ids, used))
}

impl<N: Network> DPC<N> {
    /// Returns a transaction by executing an authorized state transition: run
    /// the program, encrypt the output records, prove the inner circuit, check
    /// that proof, and prove the outer circuit over it and the execution trace.
    pub fn execute(
        authorization: TransactionAuthorization<N>,
        executable: &N::Executable,
        ledger_proof: N::LedgerProof,
        randomness: ExecutionRandomness<N>,
    ) -> (r: Result<Transaction<N>, Error>)
        requires
            randomness.record_randomizers@.len() >= authorization.output_records@.len(),
        ensures
            match r {
                Ok(transaction) => spec_execute::<N>(
                    authorization.kernel,
                    authorization.input_records@,
                    authorization.output_records@,
                    authorization.signatures@,
                    *executable,
                    ledger_proof,
                    randomness.record_randomizers@,
                    randomness.inner_proof,
                    randomness.outer_proof,
                ) == Ok::<TransactionView<N>, Error>(transaction@),
                Err(e) => spec_execute::<N>(
                    authorization.kernel,
                    authorization.input_records@,
                    authorization.output_records@,
                    authorization.signatures@,
                    *executable,
                    ledger_proof,
                    randomness.record_randomizers@,
                    randomness.inner_proof,
                    randomness.outer_proof,
                ) == Err::<TransactionView<N>, Error>(e),
            },
    {
        let block_hash = N::block_hash(&ledger_proof);
        let transaction_id = match N::transaction_id(&authorization.kernel) {
            Some(transaction_id) => transaction_id,
            None => return Err(Error::TransactionIdFailed),
        };
        let execution = match N::execute_program(executable, &transaction_id) {
            Some(execution) => execution,
            None => return Err(Error::ProgramExecutionFailed),
        };
        let (encrypted_records, encrypted_record_ids, encrypted_record_randomizers) =
            match encrypt_records::<N>(&authorization.output_records, &randomness.record_randomizers) {
            Some(encrypted) => encrypted,
            None => return Err(Error::RecordEncryptionFailed),
        };
        let TransactionAuthorization { kernel, input_records, output_records, signatures } =
            authorization;
        let inner_public = InnerPublicVariables {
            transaction_id,
            block_hash,
            encrypted_record_ids,
            program_id: N::program_id(executable),
        };
        let inner_private = InnerPrivateVariables {
            kernel,
            input_records,
            ledger_proof,
            signatures,
            output_records,
            encrypted_record_randomizers,
        };
        let inner_proof = match N::inner_prove(&inner_public, &inner_private, &randomness.inner_proof) {
            Some(inner_proof) => inner_proof,
            None => return Err(Error::InnerProofFailed),
        };
        match N::inner_verify(&inner_public, &inner_proof) {
            Some(true) => {},
            _ => return Err(Error::InnerProofSelfCheckFault),
        }
        let InnerPrivateVariables { kernel, .. } = inner_private;
        let outer_public = OuterPublicVariables {
            inner: inner_public,
            inner_circuit_id: N::inner_circuit_id(),
        };
        let outer_private = OuterPrivateVariables { inner_proof, execution };
        let proof = match N::outer_prove(&outer_public, &outer_private, &randomness.outer_proof) {
            Some(proof) => proof,
            None => return Err(Error::OuterProofFailed),
        };
        let metadata = TransactionMetadata { block_hash, inner_circuit_id: outer_public.inner_circuit_id };
        Ok(Transaction { kernel, metadata, encrypted_records, proof })
    }
}

/// The outer public variables a transaction is checked against, for the
/// program `program_id`; `None` where its kernel yields no transaction id.
pub open spec fn transaction_public_variables<N: Network>(
    transaction: TransactionView<N>,
    program_id: N::Field,
) -> Option<OuterPublicView<N>> {
    match N::spec_transaction_id(transaction.kernel) {
        None => None,
        Some(transaction_id) => Some(
            OuterPublicView {
                inner: InnerPublicView {
                    transaction_id,
                    block_hash: transaction.metadata.block_hash,
                    encrypted_record_ids: Seq::new(
                        transaction.encrypted_records.len(),
                        |i: int| N::spec_encrypted_record_id(transaction.encrypted_records[i]),
                    ),
                    program_id,
                },
                inner_circuit_id: transaction.metadata.inner_circuit_id,
            },
        ),
    }
}

impl<N: Network> Transaction<N> {
    /// Checks the transaction's outer proof against the public variables that
    /// the transaction itself determines, for the program `program_id`.
    pub fn verify(&self, program_id: &N::Field) -> (r: bool)
        ensures
            r == match transaction_public_variables::<N>(self@, *program_id) {
                None => false,
                Some(public) => N::spec_outer_verify(public, self.proof) == Some(true),
            },
    {
        let transaction_id = match N::transaction_id(&self.kernel) {
            Some(transaction_id) => transaction_id,
            None => return false,
        };
        let mut encrypted_record_ids: Vec<N::Field> = Vec::new();
        let mut i: usize = 0;
        while i < self.encrypted_records.len()
            invariant
                i <= self.encrypted_records@.len(),
                encrypted_record_ids@.len() == i,
                forall|j: int|
                    0 <= j < i ==> encrypted_record_ids@[j] == N::spec_encrypted_record_id(
                        self.encrypted_records@[j],
                    ),
            decreases self.encrypted_records@.len() - i,
        {
            encrypted_record_ids.push(N::encrypted_record_id(&self.encrypted_records[i]));
            i = i + 1;
        }
        assert(encrypted_record_ids@ =~= Seq::new(
            self.encrypted_records@.len(),
            |j: int| N::spec_encrypted_record_id(self.encrypted_records@[j]),
        ));
        let public = OuterPublicVariables {
            inner: InnerPublicVariables {
                transaction_id,
                block_hash: self.metadata.block_hash,
                encrypted_record_ids,
                program_id: *program_id,
            },
            inner_circuit_id: self.metadata.inner_circuit_id,
        };
        assert(public@ == transaction_public_variables::<N>(self@, *program_id)->Some_0);
        match N::outer_verify(&public, &self.proof) {
            Some(valid) => valid,
            None => false,
        }
    }
}

/// A transaction that execution yields passes its own verification for the
/// program it ran.
pub proof fn lemma_executed_transaction_verifies<N: Network>(
    kernel: N::Kernel,
    input_records: Seq<N::Record>,
    output_records: Seq<N::Record>,
    signatures: Seq<Signature<N>>,
    executable: N::Executable,
    ledger_proof: N::LedgerProof,
    randomizers: Seq<N::Scalar>,
    inner_randomness: N::Scalar,
    outer_randomness: N::Scalar,
)
    ensures
        ({
            let outcome = spec_execute::<N>(
                kernel,
                input_records,
                output_records,
                signatures,
                executable,
                ledger_proof,
                randomizers,
                inner_randomness,
                outer_randomness,
            );
            outcome is Ok ==> {
                let transaction = outcome->Ok_0;
                match transaction_public_variables::<N>(transaction, N::spec_program_id(executable)) {
                    None => false,
                    Some(public) => N::spec_outer_verify(public, transaction.proof) == Some(true),
                }
            }
        }),
{
    let outcome = spec_execute::<N>(
        kernel,
        input_records,
        output_records,
        signatures,
        executable,
        ledger_proof,
        randomizers,
        inner_randomness,
        outer_randomness,
    );
    if outcome is Ok {
        let transaction = outcome->Ok_0;
        let encrypted = encrypted_records::<N>(output_records, randomizers);
        let ids = encrypted_record_ids::<N>(output_records, randomizers);
        assert forall|i: int| 0 <= i < output_records.len() implies N::spec_encrypted_record_id(
            #[trigger] encrypted[i],
        ) == ids[i] by {
            assert(N::spec_encrypt_record(output_records[i], randomizers[i]) is Some);
            N::lemma_encrypted_record_id(output_records[i], randomizers[i]);
        }
        let public = transaction_public_variables::<N>(transaction, N::spec_program_id(executable))->Some_0;
        assert(public.inner.encrypted_record_ids =~= ids);
        let transaction_id = N::spec_transaction_id(kernel)->Some_0;
        let execution = N::spec_execute_program(executable, transaction_id)->Some_0;
        let inner_public = InnerPublicView {
            transaction_id,
            block_hash: N::spec_block_hash(ledger_proof),
            encrypted_record_ids: ids,
            program_id: N::spec_program_id(executable),
        };
        let inner_private = InnerPrivateView {
            kernel,
            input_records,
            ledger_proof,
            signatures,
            output_records,
            encrypted_record_randomizers: randomizers.take(output_records.len() as int),
        };
        let inner_proof = N::spec_inner_prove(inner_public, inner_private, inner_randomness)->Some_0;
        let outer_public = OuterPublicView {
            inner: inner_public,
            inner_circuit_id: N::spec_inner_circuit_id(),
        };
        let outer_private = OuterPrivateView { inner_proof, execution };
        assert(public == outer_public);
        N::lemma_outer_proof_complete(outer_public, outer_private, outer_randomness);
    }
}

/// Executing twice with the same authorization, executable, ledger proof and
/// randomness yields the same outcome.
pub proof fn lemma_execute_deterministic<N: Network>(
    kernel: N::Kernel,
    input_records: Seq<N::Record>,
    output_records: Seq<N::Record>,
    signatures: Seq<Signature<N>>,
    executable: N::Executable,
    ledger_proof: N::LedgerProof,
    randomizers: Seq<N::Scalar>,
    inner_randomness: N::Scalar,
    outer_randomness: N::Scalar,
    first: Result<TransactionView<N>, Error>,
    second: Result<TransactionView<N>, Error>,
)
    requires
        first == spec_execute::<N>(
            kernel,
            input_records,
            output_records,
            signatures,
            executable,
            ledger_proof,
            randomizers,
            inner_randomness,
            outer_randomness,
        ),
        second == spec_execute::<N>(
            kernel,
            input_records,
            output_records,
            signatures,
            executable,
            ledger_proof,
            randomizers,
            inner_randomness,
            outer_randomness,
        ),
    ensures
        first == second,
{
}

} // verus!
