use vstd::arithmetic::div_mod::{lemma_add_mod_noop, lemma_mod_add_multiples_vanish};
use vstd::arithmetic::power2::{lemma2_to64, lemma_pow2_strictly_increases, lemma_pow2_unfold, pow2};
use vstd::prelude::*;

use crate::network::Network;
use crate::pipeline::{
    InnerPrivateVariables, InnerPrivateView, InnerPublicVariables, InnerPublicView,
    OuterPrivateVariables, OuterPrivateView, OuterPublicVariables, OuterPublicView,
};

verus! {

/// The prime order of the test network's scalar field and group.
pub const ORDER: u64 = 1152921504606845789;

/// The multiplier of the test network's polynomial hash.
pub const HASH_BASE: u64 = 1000003;

/// A small network over the integers modulo the prime `ORDER`, written
/// additively with generator 1. Discrete logarithms in it are trivial and its
/// hash is linear, so it offers no security: it is for tests and examples.
pub struct Testnet;

/// A test kernel: a fee and a memo.
pub struct TestKernel {
    pub fee: u64,
    pub memo: u64,
}

/// A test record: an owner and a value.
pub struct TestRecord {
    pub owner: u64,
    pub value: u64,
}

/// A test ciphertext.
pub struct TestCiphertext {
    pub owner: u64,
    pub value: u64,
}

/// A test proof: the prover's randomness and a tag binding it to the public
/// variables.
pub struct TestProof {
    pub randomness: u64,
    pub tag: u64,
}

/// A polynomial hash of a sequence of words modulo `ORDER`.
pub open spec fn poly_hash(input: Seq<u64>) -> nat
    decreases input.len(),
{
    if input.len() == 0 {
        7
    } else {
        ((poly_hash(input.drop_last()) * HASH_BASE + input.last()) % (ORDER as int)) as nat
    }
}

/// The value of little-endian bits.
pub open spec fn bits_value(bits: Seq<bool>) -> nat
    decreases bits.len(),
{
    if bits.len() == 0 {
        0
    } else {
        (if bits[0] {
            1nat
        } else {
            0nat
        }) + 2 * bits_value(bits.drop_first())
    }
}

proof fn lemma_poly_hash_bound(input: Seq<u64>)
    ensures
        poly_hash(input) < ORDER,
{
}

pub open spec fn inner_public_words(public: InnerPublicView<Testnet>) -> Seq<u64> {
    seq![public.transaction_id, public.block_hash, public.program_id] + public.encrypted_record_ids
}

pub open spec fn outer_public_words(public: OuterPublicView<Testnet>) -> Seq<u64> {
    inner_public_words(public.inner).push(public.inner_circuit_id)
}

pub open spec fn reduce(x: u64) -> u64 {
    x % ORDER
}

fn hash_words(input: &Vec<u64>) -> (r: u64)
    ensures
        r as nat == poly_hash(input@),
        r < ORDER,
{
    let mut h: u64 = 7;
    let mut i: usize = 0;
    while i < input.len()
        invariant
            i <= input@.len(),
            h < ORDER,
            h as nat == poly_hash(input@.take(i as int)),
        decreases input@.len() - i,
    {
        assert((h as int) * (HASH_BASE as int) < 0x1000000000000000 * 0x100000)
            by (nonlinear_arith)
            requires
                h < 0x1000000000000000,
        ;
        let t: u128 = (h as u128) * (HASH_BASE as u128) + (input[i] as u128);
        h = (t % (ORDER as u128)) as u64;
        assert(input@.take(i + 1).drop_last() =~= input@.take(i as int));
        i = i + 1;
    }
    assert(input@.take(i as int) =~= input@);
    h
}

fn inner_words(public: &InnerPublicVariables<Testnet>) -> (r: Vec<u64>)
    ensures
        r@ == seq![public.transaction_id, public.block_hash, public.program_id]
            + public.encrypted_record_ids@,
{
    let mut words: Vec<u64> = Vec::new();
    words.push(public.transaction_id);
    words.push(public.block_hash);
    words.push(public.program_id);
    let ghost head = words@;
    let mut i: usize = 0;
    while i < public.encrypted_record_ids.len()
        invariant
            i <= public.encrypted_record_ids@.len(),
            head == seq![public.transaction_id, public.block_hash, public.program_id],
            words@ == head + public.encrypted_record_ids@.take(i as int),
        decreases public.encrypted_record_ids@.len() - i,
    {
        words.push(public.encrypted_record_ids[i]);
        i = i + 1;
        assert(words@ =~= head + public.encrypted_record_ids@.take(i as int));
    }
    assert(public.encrypted_record_ids@.take(i as int) =~= public.encrypted_record_ids@);
    words
}

impl Network for Testnet {
    type Scalar = u64;
    type Field = u64;
    type Group = u64;
    type Kernel = TestKernel;
    type Record = TestRecord;
    type EncryptedRecord = TestCiphertext;
    type LedgerProof = u64;
    type Executable = u64;
    type Execution = u64;
    type Proof = TestProof;

    open spec fn spec_max_data_size_in_fields() -> nat {
        128
    }

    fn max_data_size_in_fields() -> (r: usize) {
        128
    }

    open spec fn spec_num_input_records() -> nat {
        2
    }

    fn num_input_records() -> (r: usize) {
        2
    }

    open spec fn spec_size_in_data_bits() -> nat {
        32
    }

    fn size_in_data_bits() -> (r: usize) {
        32
    }

    open spec fn spec_g_scalar_multiply(s: u64) -> u64 {
        reduce(s)
    }

    fn g_scalar_multiply(s: &u64) -> (r: u64) {
        *s % ORDER
    }

    open spec fn spec_group_add(a: u64, b: u64) -> u64 {
        ((reduce(a) + reduce(b)) % (ORDER as int)) as u64
    }

    fn group_add(a: &u64, b: &u64) -> (r: u64) {
        (*a % ORDER + *b % ORDER) % ORDER
    }

    open spec fn spec_group_scalar_mul(g: u64, s: u64) -> u64 {
        ((reduce(g) * reduce(s)) % (ORDER as int)) as u64
    }

    fn group_scalar_mul(g: &u64, s: &u64) -> (r: u64) {
        Self::scalar_mul(g, s)
    }

    open spec fn spec_scalar_mul(a: u64, b: u64) -> u64 {
        ((reduce(a) * reduce(b)) % (ORDER as int)) as u64
    }

    fn scalar_mul(a: &u64, b: &u64) -> (r: u64) {
        let x = *a % ORDER;
        let y = *b % ORDER;
        assert((x as int) * (y as int) < 0x1000000000000000 * 0x1000000000000000)
            by (nonlinear_arith)
            requires
                x < 0x1000000000000000,
                y < 0x1000000000000000,
        ;
        (((x as u128) * (y as u128)) % (ORDER as u128)) as u64
    }

    open spec fn spec_scalar_sub(a: u64, b: u64) -> u64 {
        ((reduce(a) + ORDER - reduce(b)) % (ORDER as int)) as u64
    }

    fn scalar_sub(a: &u64, b: &u64) -> (r: u64) {
        (*a % ORDER + ORDER - *b % ORDER) % ORDER
    }

    fn scalar_eq(a: &u64, b: &u64) -> (r: bool) {
        *a == *b
    }

    fn group_eq(a: &u64, b: &u64) -> (r: bool) {
        *a == *b
    }

    open spec fn spec_to_x_coordinate(g: u64) -> u64 {
        g
    }

    fn to_x_coordinate(g: &u64) -> (r: u64) {
        *g
    }

    proof fn lemma_response_opens_commitment(nonce: u64, challenge: u64, sk: u64) {
        let q = ORDER as int;
        let mm = Self::spec_scalar_mul(challenge, sk);
        let m = mm as int;
        let sub = Self::spec_scalar_sub(nonce, mm);
        assert(Self::spec_scalar_mul(challenge, sk) == Self::spec_group_scalar_mul(
            Self::spec_g_scalar_multiply(sk),
            challenge,
        )) by {
            assert(reduce(sk) % ORDER == reduce(sk));
            assert(reduce(challenge) * reduce(sk) == reduce(sk) * reduce(challenge))
                by (nonlinear_arith);
        }
        assert(reduce(sub) == sub);
        lemma_add_mod_noop(reduce(nonce) + q - m, m, q);
        lemma_mod_add_multiples_vanish(reduce(nonce) as int, q);
        assert(((reduce(nonce) + q - m) % q + m % q) % q == (reduce(nonce) + q - m + m) % q);
    }

    open spec fn spec_hash_to_scalar(input: Seq<u64>) -> Option<u64> {
        Some(poly_hash(input) as u64)
    }

    fn hash_to_scalar(input: &Vec<u64>) -> (r: Option<u64>) {
        Some(hash_words(input))
    }

    open spec fn spec_address_from_compute_key(pk_sig: u64, pr_sig: u64) -> Option<u64> {
        if reduce(pk_sig) == 0 {
            None
        } else {
            Some(((reduce(pk_sig) + reduce(pr_sig)) % (ORDER as int)) as u64)
        }
    }

    fn address_from_compute_key(pk_sig: &u64, pr_sig: &u64) -> (r: Option<u64>) {
        if *pk_sig % ORDER == 0 {
            None
        } else {
            Some((*pk_sig % ORDER + *pr_sig % ORDER) % ORDER)
        }
    }

    open spec fn spec_field_from_bits_le(bits: Seq<bool>) -> Option<u64> {
        if bits.len() > 32 {
            None
        } else {
            Some(bits_value(bits) as u64)
        }
    }

    fn field_from_bits_le(bits: &Vec<bool>) -> (r: Option<u64>) {
        if bits.len() > 32 {
            return None;
        }
        let n = bits.len();
        let mut v: u64 = 0;
        let mut i: usize = n;
        proof {
            lemma2_to64();
        }
        while i > 0
            invariant
                n == bits@.len(),
                n <= 32,
                i <= n,
                v as nat == bits_value(bits@.skip(i as int)),
                (v as nat) < pow2((n - i) as nat),
                pow2(32) == 0x100000000,
            decreases i,
        {
            proof {
                lemma_pow2_unfold((n - i + 1) as nat);
                if n - i + 1 < 32 {
                    lemma_pow2_strictly_increases((n - i + 1) as nat, 32);
                }
            }
            let bit: u64 = if bits[i - 1] {
                1
            } else {
                0
            };
            assert(bits@.skip(i - 1).drop_first() =~= bits@.skip(i as int));
            v = 2 * v + bit;
            i = i - 1;
        }
        assert(bits@.skip(0) =~= bits@);
        Some(v)
    }

    open spec fn spec_signature_message(kernel: TestKernel) -> Option<Seq<u64>> {
        if kernel.memo == u64::MAX {
            None
        } else {
            Some(seq![kernel.fee, kernel.memo])
        }
    }

    fn signature_message(kernel: &TestKernel) -> (r: Option<Vec<u64>>) {
        if kernel.memo == u64::MAX {
            None
        } else {
            let mut message: Vec<u64> = Vec::new();
            message.push(kernel.fee);
            message.push(kernel.memo);
            assert(message@ =~= seq![kernel.fee, kernel.memo]);
            Some(message)
        }
    }

    open spec fn spec_transaction_id(kernel: TestKernel) -> Option<u64> {
        if kernel.fee == u64::MAX {
            None
        } else {
            Some(poly_hash(seq![kernel.fee, kernel.memo, 1]) as u64)
        }
    }

    fn transaction_id(kernel: &TestKernel) -> (r: Option<u64>) {
        if kernel.fee == u64::MAX {
            None
        } else {
            let mut words: Vec<u64> = Vec::new();
            words.push(kernel.fee);
            words.push(kernel.memo);
            words.push(1);
            assert(words@ =~= seq![kernel.fee, kernel.memo, 1]);
            Some(hash_words(&words))
        }
    }

    open spec fn spec_block_hash(ledger_proof: u64) -> u64 {
        ledger_proof
    }

    fn block_hash(ledger_proof: &u64) -> (r: u64) {
        *ledger_proof
    }

    open spec fn spec_program_id(executable: u64) -> u64 {
        executable
    }

    fn program_id(executable: &u64) -> (r: u64) {
        *executable
    }

    open spec fn spec_execute_program(executable: u64, transaction_id: u64) -> Option<u64> {
        if executable == 0 {
            None
        } else {
            Some(poly_hash(seq![executable, transaction_id]) as u64)
        }
    }

    fn execute_program(executable: &u64, transaction_id: &u64) -> (r: Option<u64>) {
        if *executable == 0 {
            None
        } else {
            let mut words: Vec<u64> = Vec::new();
            words.push(*executable);
            words.push(*transaction_id);
            assert(words@ =~= seq![*executable, *transaction_id]);
            Some(hash_words(&words))
        }
    }

    open spec fn spec_encrypt_record(record: TestRecord, randomizer: u64) -> Option<
        (TestCiphertext, u64),
    > {
        if record.value == u64::MAX {
            None
        } else {
            let ciphertext = TestCiphertext {
                owner: ((reduce(record.owner) + reduce(randomizer)) % (ORDER as int)) as u64,
                value: ((reduce(record.value) + reduce(randomizer)) % (ORDER as int)) as u64,
            };
            Some((ciphertext, Self::spec_encrypted_record_id(ciphertext)))
        }
    }

    fn encrypt_record(record: &TestRecord, randomizer: &u64) -> (r: Option<(TestCiphertext, u64)>) {
        if record.value == u64::MAX {
            None
        } else {
            let ciphertext = TestCiphertext {
                owner: (record.owner % ORDER + *randomizer % ORDER) % ORDER,
                value: (record.value % ORDER + *randomizer % ORDER) % ORDER,
            };
            let id = Self::encrypted_record_id(&ciphertext);
            Some((ciphertext, id))
        }
    }

    proof fn lemma_encrypted_record_id(record: TestRecord, randomizer: u64) {
    }

    open spec fn spec_encrypted_record_id(record: TestCiphertext) -> u64 {
        poly_hash(seq![record.owner, record.value]) as u64
    }

    fn encrypted_record_id(record: &TestCiphertext) -> (r: u64) {
        let mut words: Vec<u64> = Vec::new();
        words.push(record.owner);
        words.push(record.value);
        assert(words@ =~= seq![record.owner, record.value]);
        hash_words(&words)
    }

    open spec fn spec_inner_circuit_id() -> u64 {
        777
    }

    fn inner_circuit_id() -> (r: u64) {
        777
    }

    open spec fn spec_inner_prove(
        public: InnerPublicView<Testnet>,
        private: InnerPrivateView<Testnet>,
        randomness: u64,
    ) -> Option<TestProof> {
        if randomness == 0 {
            None
        } else {
            Some(
                TestProof {
                    randomness,
                    tag: poly_hash(inner_public_words(public).push(randomness)) as u64,
                },
            )
        }
    }

    fn inner_prove(
        public: &InnerPublicVariables<Testnet>,
        private: &InnerPrivateVariables<Testnet>,
        randomness: &u64,
    ) -> (r: Option<TestProof>) {
        if *randomness == 0 {
            return None;
        }
        let mut words = inner_words(public);
        words.push(*randomness);
        Some(TestProof { randomness: *randomness, tag: hash_words(&words) })
    }

    open spec fn spec_inner_verify(public: InnerPublicView<Testnet>, proof: TestProof) -> Option<
        bool,
    > {
        Some(poly_hash(inner_public_words(public).push(proof.randomness)) == proof.tag as nat)
    }

    fn inner_verify(public: &InnerPublicVariables<Testnet>, proof: &TestProof) -> (r: Option<bool>) {
        let mut words = inner_words(public);
        words.push(proof.randomness);
        Some(hash_words(&words) == proof.tag)
    }

    open spec fn spec_outer_prove(
        public: OuterPublicView<Testnet>,
        private: OuterPrivateView<Testnet>,
        randomness: u64,
    ) -> Option<TestProof> {
        if randomness == 0 {
            None
        } else {
            Some(
                TestProof {
                    randomness,
                    tag: poly_hash(outer_public_words(public).push(randomness)) as u64,
                },
            )
        }
    }

    fn outer_prove(
        public: &OuterPublicVariables<Testnet>,
        private: &OuterPrivateVariables<Testnet>,
        randomness: &u64,
    ) -> (r: Option<TestProof>) {
        if *randomness == 0 {
            return None;
        }
        let mut words = inner_words(&public.inner);
        words.push(public.inner_circuit_id);
        words.push(*randomness);
        Some(TestProof { randomness: *randomness, tag: hash_words(&words) })
    }

    proof fn lemma_outer_proof_complete(
        public: OuterPublicView<Testnet>,
        private: OuterPrivateView<Testnet>,
        randomness: u64,
    ) {
        lemma_poly_hash_bound(outer_public_words(public).push(randomness));
    }

    open spec fn spec_outer_verify(public: OuterPublicView<Testnet>, proof: TestProof) -> Option<
        bool,
    > {
        Some(poly_hash(outer_public_words(public).push(proof.randomness)) == proof.tag as nat)
    }

    fn outer_verify(public: &OuterPublicVariables<Testnet>, proof: &TestProof) -> (r: Option<bool>) {
        let mut words = inner_words(&public.inner);
        words.push(public.inner_circuit_id);
        words.push(proof.randomness);
        Some(hash_words(&words) == proof.tag)
    }
}

} // verus!
