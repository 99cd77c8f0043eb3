use dpc::authorization::{StateTransition, TransactionAuthorization};
use dpc::error::Error;
use dpc::execute::{ExecutionRandomness, Transaction};
use dpc::network::Network;
use dpc::packing::to_bits_le;
use dpc::pipeline::DPC;
use dpc::signature::{Address, PrivateKey, Signature};
use dpc::testnet::{TestKernel, TestRecord, Testnet, ORDER};

type CurrentNetwork = Testnet;

const ITERATIONS: u64 = 100;

/// A deterministic generator for test values (splitmix64).
struct TestRng(u64);

impl TestRng {
    fn next(&mut self) -> u64 {
        self.0 = self.0.wrapping_add(0x9e3779b97f4a7c15);
        let mut z = self.0;
        z = (z ^ (z >> 30)).wrapping_mul(0xbf58476d1ce4e5b9);
        z = (z ^ (z >> 27)).wrapping_mul(0x94d049bb133111eb);
        z ^ (z >> 31)
    }

    fn scalar(&mut self) -> u64 {
        2 + self.next() % (ORDER - 2)
    }
}

fn test_crypto_rng() -> TestRng {
    TestRng(0x5eed_1234)
}

fn new_private_key(rng: &mut TestRng) -> PrivateKey<CurrentNetwork> {
    PrivateKey::new(rng.scalar(), rng.scalar())
}

#[test]
fn test_sign_and_verify() {
    let rng = &mut test_crypto_rng();
    for i in 0..ITERATIONS {
        let private_key = new_private_key(rng);
        let address = private_key.to_address().unwrap();

        let message: Vec<u64> = (0..i).map(|_| rng.next()).collect();
        let signature = Signature::sign(&private_key, &message, &rng.scalar()).unwrap();
        assert!(signature.verify(&address, &message));

        let failure_message: Vec<u64> = (0..i).map(|_| rng.next()).collect();
        if message != failure_message {
            assert!(!signature.verify(&address, &failure_message));
        }
    }
}

#[test]
fn test_sign_and_verify_bytes() {
    let rng = &mut test_crypto_rng();
    for i in 0..ITERATIONS {
        let private_key = new_private_key(rng);
        let address = private_key.to_address().unwrap();

        let message: Vec<u8> = (0..i).map(|_| rng.next() as u8).collect();
        let signature = Signature::sign_bytes(&private_key, &message, &rng.scalar()).unwrap();
        assert!(signature.verify_bytes(&address, &message));

        let failure_message: Vec<u8> = (0..i).map(|_| rng.next() as u8).collect();
        if message != failure_message {
            assert!(!signature.verify_bytes(&address, &failure_message));
        }
    }
}

#[test]
fn test_sign_and_verify_bits() {
    let rng = &mut test_crypto_rng();
    for i in 0..ITERATIONS {
        let private_key = new_private_key(rng);
        let address = private_key.to_address().unwrap();

        let message: Vec<bool> = (0..i).map(|_| rng.next() & 1 == 1).collect();
        let signature = Signature::sign_bits(&private_key, &message, &rng.scalar()).unwrap();
        assert!(signature.verify_bits(&address, &message));

        let failure_message: Vec<bool> = (0..i).map(|_| rng.next() & 1 == 1).collect();
        if message != failure_message {
            assert!(!signature.verify_bits(&address, &failure_message));
        }
    }
}

#[test]
fn signature_rejected_for_other_address() {
    let rng = &mut test_crypto_rng();
    let key_a = new_private_key(rng);
    let key_b = new_private_key(rng);
    let address_a = key_a.to_address().unwrap();
    let address_b = key_b.to_address().unwrap();
    let message = vec![1u64, 2, 3];
    let signature = Signature::sign(&key_a, &message, &rng.scalar()).unwrap();
    assert!(signature.verify(&address_a, &message));
    assert!(!signature.verify(&address_b, &message));
    // The same compute key with an address that differs by one.
    let shifted = Address::<CurrentNetwork> { group: (address_a.group + 1) % ORDER };
    assert!(!signature.verify(&shifted, &message));
}

#[test]
fn oversized_message_is_rejected() {
    let rng = &mut test_crypto_rng();
    let private_key = new_private_key(rng);
    let address = private_key.to_address().unwrap();
    let max = CurrentNetwork::max_data_size_in_fields();
    assert_eq!(max, 128);
    let at_limit: Vec<u64> = (0..max as u64).collect();
    let signature = Signature::sign(&private_key, &at_limit, &rng.scalar()).unwrap();
    assert!(signature.verify(&address, &at_limit));
    let mut too_long = at_limit.clone();
    too_long.push(0);
    assert!(!signature.verify(&address, &too_long));
    let refused = Signature::sign(&private_key, &too_long, &rng.scalar());
    assert!(matches!(refused, Err(Error::MessageTooLarge)));
}

#[test]
fn empty_message_signs_and_verifies() {
    let rng = &mut test_crypto_rng();
    let private_key = new_private_key(rng);
    let address = private_key.to_address().unwrap();
    let signature = Signature::sign(&private_key, &[], &rng.scalar()).unwrap();
    assert!(signature.verify(&address, &[]));
    assert!(!signature.verify(&address, &[0]));
    assert!(signature.verify_bytes(&address, &[]));
}

#[test]
fn bytes_and_bits_verify_alike() {
    let rng = &mut test_crypto_rng();
    let private_key = new_private_key(rng);
    let address = private_key.to_address().unwrap();
    let bytes: Vec<u8> = (0..37u8).map(|b| b.wrapping_mul(29)).collect();
    let signature = Signature::sign_bytes(&private_key, &bytes, &rng.scalar()).unwrap();
    let bits = to_bits_le(&bytes);
    assert_eq!(bits.len(), 8 * bytes.len());
    assert!(signature.verify_bytes(&address, &bytes));
    assert_eq!(signature.verify_bytes(&address, &bytes), signature.verify_bits(&address, &bits));
    let other = vec![7u8; 37];
    assert!(!signature.verify_bytes(&address, &other));
    assert_eq!(
        signature.verify_bytes(&address, &other),
        signature.verify_bits(&address, &to_bits_le(&other))
    );
}

#[test]
fn bits_of_bytes_are_little_endian() {
    assert_eq!(to_bits_le(&[0b0000_0101]), vec![true, false, true, false, false, false, false, false]);
    assert_eq!(
        to_bits_le(&[0x80, 0x01]),
        vec![false, false, false, false, false, false, false, true, true, false, false, false, false, false, false, false]
    );
    assert!(to_bits_le(&[]).is_empty());
}

#[test]
fn testnet_formulas() {
    assert_eq!(CurrentNetwork::hash_to_scalar(&vec![]), Some(7));
    assert_eq!(CurrentNetwork::hash_to_scalar(&vec![1]), Some(7 * 1000003 + 1));
    assert_eq!(CurrentNetwork::scalar_sub(&3, &5), ORDER - 2);
    assert_eq!(CurrentNetwork::scalar_mul(&(ORDER - 1), &(ORDER - 1)), 1);
    assert_eq!(CurrentNetwork::field_from_bits_le(&vec![true, true, false, true]), Some(11));
    assert_eq!(CurrentNetwork::field_from_bits_le(&vec![false; 33]), None);
    assert_eq!(CurrentNetwork::address_from_compute_key(&0, &5), None);
    assert_eq!(CurrentNetwork::address_from_compute_key(&3, &5), Some(8));
}

#[test]
fn key_without_address_cannot_sign() {
    let private_key = PrivateKey::<CurrentNetwork>::new(0, 5);
    assert!(private_key.to_address().is_none());
    let refused = Signature::sign(&private_key, &[1, 2], &9);
    assert!(matches!(refused, Err(Error::AddressDerivationFailed)));
}

fn noop_key() -> PrivateKey<CurrentNetwork> {
    PrivateKey::new(424242, 171717)
}

fn coinbase_transition(owner: u64, memo: u64) -> StateTransition<CurrentNetwork> {
    StateTransition {
        kernel: TestKernel { fee: 0, memo },
        input_records: vec![TestRecord { owner, value: 0 }, TestRecord { owner: 0, value: 0 }],
        output_records: vec![TestRecord { owner, value: 10 }],
        noop_private_keys: vec![None, Some(noop_key())],
    }
}

fn authorize_one(
    rng: &mut TestRng,
    private_key: PrivateKey<CurrentNetwork>,
    memo: u64,
) -> TransactionAuthorization<CurrentNetwork> {
    let owner = private_key.to_address().unwrap().group;
    let nonces = vec![rng.scalar(), rng.scalar()];
    match DPC::authorize(&vec![private_key], coinbase_transition(owner, memo), &nonces) {
        Ok(authorization) => authorization,
        Err(e) => panic!("authorization failed: {:?}", e),
    }
}

#[test]
fn authorization_signs_every_slot() {
    let rng = &mut test_crypto_rng();
    let private_key = new_private_key(rng);
    let address = private_key.to_address().unwrap();
    let authorization = authorize_one(rng, private_key, 5);
    assert_eq!(authorization.signatures.len(), CurrentNetwork::num_input_records());
    let message = CurrentNetwork::signature_message(&authorization.kernel).unwrap();
    assert!(authorization.signatures[0].verify(&address, &message));
    let noop_address = noop_key().to_address().unwrap();
    assert!(authorization.signatures[1].verify(&noop_address, &message));
    assert!(!authorization.signatures[1].verify(&address, &message));
}

#[test]
fn authorization_without_enough_keys_fails() {
    let rng = &mut test_crypto_rng();
    let nonces = vec![rng.scalar(), rng.scalar()];
    let outcome = DPC::authorize(&vec![], coinbase_transition(1, 5), &nonces);
    assert!(matches!(outcome, Err(Error::MissingPrivateKey)));

    let two_real = StateTransition::<CurrentNetwork> {
        kernel: TestKernel { fee: 1, memo: 2 },
        input_records: vec![],
        output_records: vec![],
        noop_private_keys: vec![None, None],
    };
    let outcome = DPC::authorize(&vec![new_private_key(rng)], two_real, &nonces);
    assert!(matches!(outcome, Err(Error::MissingPrivateKey)));
}

#[test]
fn authorization_needs_a_signature_message() {
    let rng = &mut test_crypto_rng();
    let nonces = vec![rng.scalar(), rng.scalar()];
    let outcome = DPC::authorize(&vec![new_private_key(rng)], coinbase_transition(1, u64::MAX), &nonces);
    assert!(matches!(outcome, Err(Error::SignatureMessageFailed)));
}

fn randomness(rng: &mut TestRng) -> ExecutionRandomness<CurrentNetwork> {
    ExecutionRandomness { record_randomizers: vec![rng.scalar()], inner_proof: rng.scalar(), outer_proof: rng.scalar() }
}

const PROGRAM: u64 = 31337;
const BLOCK_HASH: u64 = 99;

#[test]
fn end_to_end_transaction_verifies() {
    let rng = &mut test_crypto_rng();
    let private_key = new_private_key(rng);
    let authorization = authorize_one(rng, private_key, 5);
    assert_eq!(authorization.signatures.len(), 2);
    let randomness = randomness(rng);
    let mut transaction: Transaction<CurrentNetwork> =
        match DPC::execute(authorization, &PROGRAM, BLOCK_HASH, randomness) {
            Ok(transaction) => transaction,
            Err(e) => panic!("execution failed: {:?}", e),
        };
    assert_eq!(transaction.metadata.block_hash, BLOCK_HASH);
    assert_eq!(transaction.metadata.inner_circuit_id, 777);
    assert_eq!(transaction.encrypted_records.len(), 1);
    assert!(transaction.verify(&PROGRAM));
    assert!(!transaction.verify(&(PROGRAM + 1)));
    transaction.proof.tag ^= 1;
    assert!(!transaction.verify(&PROGRAM));
}

#[test]
fn execution_is_deterministic_in_its_randomness() {
    let make = |seed: u64, outer: u64| {
        let rng = &mut TestRng(seed);
        let private_key = new_private_key(rng);
        let authorization = authorize_one(rng, private_key, 5);
        let mut randomness = randomness(rng);
        randomness.outer_proof = outer;
        match DPC::execute(authorization, &PROGRAM, BLOCK_HASH, randomness) {
            Ok(transaction) => transaction,
            Err(e) => panic!("execution failed: {:?}", e),
        }
    };
    let first = make(11, 1234);
    let second = make(11, 1234);
    assert_eq!(first.proof.tag, second.proof.tag);
    assert_eq!(first.proof.randomness, second.proof.randomness);
    assert_eq!(first.kernel.fee, second.kernel.fee);
    assert_eq!(first.encrypted_records[0].owner, second.encrypted_records[0].owner);
    assert_eq!(first.encrypted_records[0].value, second.encrypted_records[0].value);
    let third = make(11, 5678);
    assert_ne!(first.proof.tag, third.proof.tag);
    assert!(third.verify(&PROGRAM));
}

fn execute_with(
    fee: u64,
    executable: u64,
    value: u64,
    inner: u64,
    outer: u64,
) -> Result<Transaction<CurrentNetwork>, Error> {
    let authorization = TransactionAuthorization::<CurrentNetwork> {
        kernel: TestKernel { fee, memo: 5 },
        input_records: vec![],
        output_records: vec![TestRecord { owner: 3, value }],
        signatures: vec![],
    };
    let randomness = ExecutionRandomness { record_randomizers: vec![17], inner_proof: inner, outer_proof: outer };
    DPC::execute(authorization, &executable, BLOCK_HASH, randomness)
}

#[test]
fn execution_errors_name_their_stage() {
    assert!(execute_with(1, PROGRAM, 10, 2, 3).is_ok());
    assert!(matches!(execute_with(u64::MAX, PROGRAM, 10, 2, 3), Err(Error::TransactionIdFailed)));
    assert!(matches!(execute_with(1, 0, 10, 2, 3), Err(Error::ProgramExecutionFailed)));
    assert!(matches!(execute_with(1, PROGRAM, u64::MAX, 2, 3), Err(Error::RecordEncryptionFailed)));
    assert!(matches!(execute_with(1, PROGRAM, 10, 0, 3), Err(Error::InnerProofFailed)));
    assert!(matches!(execute_with(1, PROGRAM, 10, 2, 0), Err(Error::OuterProofFailed)));
}
