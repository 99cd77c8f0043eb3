use vstd::prelude::*;

use crate::network::Network;
use crate::signature::Signature;

verus! {

/// The authorize/execute pipeline of a network.
pub struct DPC<N: Network> {
    network: std::marker::PhantomData<N>,
}

/// The public inputs of the inner proof.
pub struct InnerPublicVariables<N: Network> {
    pub transaction_id: N::Field,
    pub block_hash: N::Field,
    pub encrypted_record_ids: Vec<N::Field>,
    pub program_id: N::Field,
}

pub struct InnerPublicView<N: Network> {
    pub transaction_id: N::Field,
    pub block_hash: N::Field,
    pub encrypted_record_ids: Seq<N::Field>,
    pub program_id: N::Field,
}

impl<N: Network> View for InnerPublicVariables<N> {
    type V = InnerPublicView<N>;

    open spec fn view(&self) -> InnerPublicView<N> {
        InnerPublicView {
            transaction_id: self.transaction_id,
            block_hash: self.block_hash,
            encrypted_record_ids: self.encrypted_record_ids@,
            program_id: self.program_id,
        }
    }
}

/// The private witness of the inner proof.
pub struct InnerPrivateVariables<N: Network> {
    pub kernel: N::Kernel,
    pub input_records: Vec<N::Record>,
    pub ledger_proof: N::LedgerProof,
    pub signatures: Vec<Signature<N>>,
    pub output_records: Vec<N::Record>,
    pub encrypted_record_randomizers: Vec<N::Scalar>,
}

pub struct InnerPrivateView<N: Network> {
    pub kernel: N::Kernel,
    pub input_records: Seq<N::Record>,
    pub ledger_proof: N::LedgerProof,
    pub signatures: Seq<Signature<N>>,
    pub output_records: Seq<N::Record>,
    pub encrypted_record_randomizers: Seq<N::Scalar>,
}

impl<N: Network> View for InnerPrivateVariables<N> {
    type V = InnerPrivateView<N>;

    open spec fn view(&self) -> InnerPrivateView<N> {
        InnerPrivateView {
            kernel: self.kernel,
            input_records: self.input_records@,
            ledger_proof: self.ledger_proof,
            signatures: self.signatures@,
            output_records: self.output_records@,
            encrypted_record_randomizers: self.encrypted_record_randomizers@,
        }
    }
}

/// The public inputs of the outer proof: the inner public variables and the
/// inner circuit's identifier.
pub struct OuterPublicVariables<N: Network> {
    pub inner: InnerPublicVariables<N>,
    pub inner_circuit_id: N::Field,
}

pub struct OuterPublicView<N: Network> {
    pub inner: InnerPublicView<N>,
    pub inner_circuit_id: N::Field,
}

impl<N: Network> View for OuterPublicVariables<N> {
    type V = OuterPublicView<N>;

    open spec fn view(&self) -> OuterPublicView<N> {
        OuterPublicView { inner: self.inner@, inner_circuit_id: self.inner_circuit_id }
    }
}

/// The private witness of the outer proof: the inner proof and the program's
/// execution trace.
pub struct OuterPrivateVariables<N: Network> {
    pub inner_proof: N::Proof,
    pub execution: N::Execution,
}

pub struct OuterPrivateView<N: Network> {
    pub inner_proof: N::Proof,
    pub execution: N::Execution,
}

impl<N: Network> View for OuterPrivateVariables<N> {
    type V = OuterPrivateView<N>;

    open spec fn view(&self) -> OuterPrivateView<N> {
        OuterPrivateView { inner_proof: self.inner_proof, execution: self.execution }
    }
}

} // verus!
