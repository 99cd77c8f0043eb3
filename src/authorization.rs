use vstd::prelude::*;

use crate::error::Error;
use crate::network::Network;
use crate::pipeline::DPC;
use crate::signature::{lemma_sign_then_verify, spec_sign, PrivateKey, Signature};

verus! {

/// A declared state transition: the kernel, the input records to consume, the
/// output records to produce, and for each input slot either the network's
/// noop private key (a dummy input) or `None` (a real input, signed with a
/// caller-supplied key).
pub struct StateTransition<N: Network> {
    pub kernel: N::Kernel,
    pub input_records: Vec<N::Record>,
    pub output_records: Vec<N::Record>,
    pub noop_private_keys: Vec<Option<PrivateKey<N>>>,
}

/// A state transition with one signature per signed input slot, in slot order.
pub struct TransactionAuthorization<N: Network> {
    pub kernel: N::Kernel,
    pub input_records: Vec<N::Record>,
    pub output_records: Vec<N::Record>,
    pub signatures: Vec<Signature<N>>,
}

/// The number of real (non-noop) slots.
pub open spec fn count_real<N: Network>(slots: Seq<Option<PrivateKey<N>>>) -> nat
    decreases slots.len(),
{
    if slots.len() == 0 {
        0
    } else {
        (if slots[0] is None {
            1nat
        } else {
            0nat
        }) + count_real::<N>(slots.drop_first())
    }
}

/// Sign `message` once per slot, in slot order: a noop slot with its own key,
/// a real slot with the next unused entry of `keys`. The first failure is the
/// outcome; a real slot with no key left fails with `MissingPrivateKey`.
pub open spec fn sign_slots<N: Network>(
    keys: Seq<PrivateKey<N>>,
    slots: Seq<Option<PrivateKey<N>>>,
    message: Seq<N::Field>,
    nonces: Seq<N::Scalar>,
) -> Result<Seq<Signature<N>>, Error>
    decreases slots.len(),
{
    if slots.len() == 0 {
        Ok(Seq::empty())
    } else {
        let key = match slots[0] {
            Some(k) => Some(k),
            None => if keys.len() > 0 {
                Some(keys[0])
            } else {
                None
            },
        };
        let rest_keys = if slots[0] is None {
            keys.drop_first()
        } else {
            keys
        };
        match key {
            None => Err(Error::MissingPrivateKey),
            Some(k) => match spec_sign(k, message, nonces[0]) {
                Err(e) => Err(e),
                Ok(sig) => match sign_slots(
                    rest_keys,
                    slots.drop_first(),
                    message,
                    nonces.drop_first(),
                ) {
                    Err(e) => Err(e),
                    Ok(sigs) => Ok(seq![sig] + sigs),
                },
            },
        }
    }
}

/// The key that signs slot `i`: its noop key, or the caller's key at the
/// position of this slot among the real ones.
pub open spec fn slot_key<N: Network>(
    keys: Seq<PrivateKey<N>>,
    slots: Seq<Option<PrivateKey<N>>>,
    i: int,
) -> PrivateKey<N> {
    match slots[i] {
        Some(k) => k,
        None => keys[count_real::<N>(slots.take(i)) as int],
    }
}

/// The slots that are signed: the first `NUM_INPUT_RECORDS` of the transition.
pub open spec fn signed_slots<N: Network>(noop_private_keys: Seq<Option<PrivateKey<N>>>) -> Seq<
    Option<PrivateKey<N>>,
> {
    if noop_private_keys.len() < N::spec_num_input_records() {
        noop_private_keys
    } else {
        noop_private_keys.take(N::spec_num_input_records() as int)
    }
}

proof fn lemma_count_real_take<N: Network>(slots: Seq<Option<PrivateKey<N>>>, i: int)
    requires
        0 < i <= slots.len(),
    ensures
        count_real::<N>(slots.take(i)) == (if slots[0] is None {
            1nat
        } else {
            0nat
        }) + count_real::<N>(slots.drop_first().take(i - 1)),
{
    assert(slots.take(i).drop_first() =~= slots.drop_first().take(i - 1));
}

/// With fewer keys than real slots, signing the slots fails.
pub proof fn lemma_key_exhaustion<N: Network>(
    keys: Seq<PrivateKey<N>>,
    slots: Seq<Option<PrivateKey<N>>>,
    message: Seq<N::Field>,
    nonces: Seq<N::Scalar>,
)
    requires
        keys.len() < count_real::<N>(slots),
    ensures
        sign_slots::<N>(keys, slots, message, nonces) is Err,
    decreases slots.len(),
{
    if slots.len() > 0 {
        let rest_keys = if slots[0] is None {
            keys.drop_first()
        } else {
            keys
        };
        if slots[0] is Some || keys.len() > 0 {
            lemma_key_exhaustion::<N>(rest_keys, slots.drop_first(), message, nonces.drop_first());
        }
    }
}

/// Every signature that signing the slots yields is the one its slot's key
/// makes, and it verifies against that key's address over the message.
pub proof fn lemma_signatures_verify<N: Network>(
    keys: Seq<PrivateKey<N>>,
    slots: Seq<Option<PrivateKey<N>>>,
    message: Seq<N::Field>,
    nonces: Seq<N::Scalar>,
)
    requires
        nonces.len() >= slots.len(),
    ensures
        sign_slots::<N>(keys, slots, message, nonces) is Ok ==> {
            let sigs = sign_slots::<N>(keys, slots, message, nonces)->Ok_0;
            &&& sigs.len() == slots.len()
            &&& forall|i: int|
                #![trigger sigs[i]]
                #![trigger slots[i]]
                0 <= i < slots.len() ==> {
                    &&& (slots[i] is None ==> count_real::<N>(slots.take(i)) < keys.len())
                    &&& spec_sign(slot_key::<N>(keys, slots, i), message, nonces[i]) == Ok::<
                        Signature<N>,
                        Error,
                    >(sigs[i])
                    &&& slot_key::<N>(keys, slots, i).spec_address() is Some
                    &&& sigs[i].spec_verify(
                        slot_key::<N>(keys, slots, i).spec_address()->Some_0,
                        message,
                    )
                }
        },
    decreases slots.len(),
{
    if slots.len() > 0 && sign_slots::<N>(keys, slots, message, nonces) is Ok {
        let rest_keys = if slots[0] is None {
            keys.drop_first()
        } else {
            keys
        };
        let rest = slots.drop_first();
        let rest_nonces = nonces.drop_first();
        lemma_signatures_verify::<N>(rest_keys, rest, message, rest_nonces);
        let sigs = sign_slots::<N>(keys, slots, message, nonces)->Ok_0;
        let rest_sigs = sign_slots::<N>(rest_keys, rest, message, rest_nonces)->Ok_0;
        assert(slots.take(0) =~= Seq::<Option<PrivateKey<N>>>::empty());
        lemma_sign_then_verify(slot_key::<N>(keys, slots, 0), message, nonces[0]);
        if slots[0] is None {
            assert(keys.len() > 0);
        }
        assert(sigs == seq![sigs[0]] + rest_sigs);
        assert(sigs.len() == slots.len());
        assert forall|i: int|
            #![trigger sigs[i]]
            #![trigger slots[i]]
            0 <= i < slots.len() implies {
            &&& (slots[i] is None ==> count_real::<N>(slots.take(i)) < keys.len())
            &&& spec_sign(slot_key::<N>(keys, slots, i), message, nonces[i]) == Ok::<
                Signature<N>,
                Error,
            >(sigs[i])
            &&& slot_key::<N>(keys, slots, i).spec_address() is Some
            &&& sigs[i].spec_verify(slot_key::<N>(keys, slots, i).spec_address()->Some_0, message)
        } by {
            if i > 0 {
                lemma_count_real_take::<N>(slots, i);
                assert(rest[i - 1] == slots[i]);
                assert(sigs[i] == rest_sigs[i - 1]);
                assert(slot_key::<N>(keys, slots, i) == slot_key::<N>(rest_keys, rest, i - 1));
                assert(nonces[i] == rest_nonces[i - 1]);
                lemma_sign_then_verify(slot_key::<N>(keys, slots, i), message, nonces[i]);
            }
        }
    }
}

impl<N: Network> DPC<N> {
    /// Returns an authorization to execute a state transition: one signature of
    /// the kernel's signature message per signed input slot. Noop slots are
    /// signed with their noop key; real slots take the caller's keys in order.
    /// `nonces[i]` is the signing randomness of slot `i`.
    pub fn authorize(
        private_keys: &Vec<PrivateKey<N>>,
        transition: StateTransition<N>,
        nonces: &Vec<N::Scalar>,
    ) -> (r: Result<TransactionAuthorization<N>, Error>)
        requires
            nonces@.len() >= signed_slots::<N>(transition.noop_private_keys@).len(),
        ensures
            match N::spec_signature_message(transition.kernel) {
                None => r == Err::<TransactionAuthorization<N>, Error>(
                    Error::SignatureMessageFailed,
                ),
                Some(message) => match sign_slots::<N>(
                    private_keys@,
                    signed_slots::<N>(transition.noop_private_keys@),
                    message,
                    nonces@,
                ) {
                    Err(e) => r == Err::<TransactionAuthorization<N>, Error>(e),
                    Ok(sigs) => r is Ok && r->Ok_0.signatures@ == sigs && r->Ok_0.kernel
                        == transition.kernel && r->Ok_0.input_records == transition.input_records
                        && r->Ok_0.output_records == transition.output_records,
                },
            },
    {
        let message = match N::signature_message(&transition.kernel) {
            Some(message) => message,
            None => return Err(Error::SignatureMessageFailed),
        };
        let num = N::num_input_records();
        let n: usize = if transition.noop_private_keys.len() < num {
            transition.noop_private_keys.len()
        } else {
            num
        };
        let ghost slots = signed_slots::<N>(transition.noop_private_keys@);
        assert(slots =~= transition.noop_private_keys@.take(n as int));
        let mut signatures: Vec<Signature<N>> = Vec::new();
        let mut index: usize = 0;
        let mut i: usize = 0;
        assert(private_keys@.skip(0) =~= private_keys@);
        assert(slots.skip(0) =~= slots);
        assert(nonces@.skip(0) =~= nonces@);
        assert forall|tail: Seq<Signature<N>>| #[trigger] (signatures@ + tail) == tail by {
            assert(signatures@ + tail =~= tail);
        }
        while i < n
            invariant
                N::spec_signature_message(transition.kernel) == Some(message@),
                slots == signed_slots::<N>(transition.noop_private_keys@),
                n == slots.len(),
                n <= transition.noop_private_keys@.len(),
                slots == transition.noop_private_keys@.take(n as int),
                nonces@.len() >= n,
                i <= n,
                index <= private_keys@.len(),
                sign_slots::<N>(private_keys@, slots, message@, nonces@) == match sign_slots::<N>(
                    private_keys@.skip(index as int),
                    slots.skip(i as int),
                    message@,
                    nonces@.skip(i as int),
                ) {
                    Ok(rest) => Ok(signatures@ + rest),
                    Err(e) => Err::<Seq<Signature<N>>, Error>(e),
                },
            decreases n - i,
        {
            let ghost keys_rest = private_keys@.skip(index as int);
            let ghost slots_rest = slots.skip(i as int);
            let ghost nonces_rest = nonces@.skip(i as int);
            assert(slots_rest[0] == transition.noop_private_keys@[i as int]);
            assert(nonces_rest[0] == nonces@[i as int]);
            assert(slots_rest.drop_first() =~= slots.skip(i + 1));
            assert(nonces_rest.drop_first() =~= nonces@.skip(i + 1));
            let private_key = match &transition.noop_private_keys[i] {
                Some(noop_private_key) => noop_private_key,
                None => {
                    if index >= private_keys.len() {
                        assert(keys_rest.len() == 0);
                        assert(sign_slots::<N>(keys_rest, slots_rest, message@, nonces_rest) == Err::<
                            Seq<Signature<N>>,
                            Error,
                        >(Error::MissingPrivateKey));
                        return Err(Error::MissingPrivateKey);
                    }
                    let private_key = &private_keys[index];
                    assert(keys_rest[0] == private_keys@[index as int]);
                    assert(keys_rest.drop_first() =~= private_keys@.skip(index + 1));
                    index = index + 1;
                    private_key
                },
            };
            let signature = match Signature::sign(private_key, message.as_slice(), &nonces[i]) {
                Ok(signature) => signature,
                Err(e) => {
                    assert(sign_slots::<N>(keys_rest, slots_rest, message@, nonces_rest) == Err::<
                        Seq<Signature<N>>,
                        Error,
                    >(e));
                    assert(sign_slots::<N>(private_keys@, slots, message@, nonces@) == Err::<
                        Seq<Signature<N>>,
                        Error,
                    >(e));
                    return Err(e);
                },
            };
            let ghost old_sigs = signatures@;
            signatures.push(signature);
            assert forall|tail: Seq<Signature<N>>| #[trigger] (old_sigs + (seq![signature] + tail))
                == (signatures@ + tail) by {
                assert(old_sigs + (seq![signature] + tail) =~= signatures@ + tail);
            }
            i = i + 1;
        }
        assert(slots.skip(i as int) =~= Seq::<Option<PrivateKey<N>>>::empty());
        assert(signatures@ + Seq::<Signature<N>>::empty() =~= signatures@);
        let StateTransition { kernel, input_records, output_records, noop_private_keys: _ } =
            transition;
        Ok(TransactionAuthorization { kernel, input_records, output_records, signatures })
    }
}

} // verus!
