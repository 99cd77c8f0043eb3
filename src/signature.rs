use vstd::prelude::*;

use crate::error::Error;
use crate::network::Network;

verus! {

/// The secret scalars of an account.
pub struct PrivateKey<N: Network> {
    pub sk_sig: N::Scalar,
    pub r_sig: N::Scalar,
}

/// The public key pair `(pk_sig, pr_sig)` derived from a private key.
pub struct ComputeKey<N: Network> {
    pub pk_sig: N::Group,
    pub pr_sig: N::Group,
}

/// A public address: a group element derived from a compute key.
pub struct Address<N: Network> {
    pub group: N::Group,
}

/// A Schnorr signature together with the compute key that made it.
pub struct Signature<N: Network> {
    pub challenge: N::Scalar,
    pub response: N::Scalar,
    pub compute_key: ComputeKey<N>,
}

impl<N: Network> PrivateKey<N> {
    pub fn new(sk_sig: N::Scalar, r_sig: N::Scalar) -> (r: Self)
        ensures
            r.sk_sig == sk_sig,
            r.r_sig == r_sig,
    {
        PrivateKey { sk_sig, r_sig }
    }

    pub open spec fn spec_compute_key(self) -> ComputeKey<N> {
        ComputeKey {
            pk_sig: N::spec_g_scalar_multiply(self.sk_sig),
            pr_sig: N::spec_g_scalar_multiply(self.r_sig),
        }
    }

    pub open spec fn spec_address(self) -> Option<Address<N>> {
        self.spec_compute_key().spec_address()
    }

    /// `(sk_sig * G, r_sig * G)`.
    pub fn compute_key(&self) -> (r: ComputeKey<N>)
        ensures
            r == self.spec_compute_key(),
    {
        ComputeKey {
            pk_sig: N::g_scalar_multiply(&self.sk_sig),
            pr_sig: N::g_scalar_multiply(&self.r_sig),
        }
    }

    /// The address of this key, by way of its compute key.
    pub fn to_address(&self) -> (r: Option<Address<N>>)
        ensures
            r == self.spec_address(),
    {
        self.compute_key().to_address()
    }
}

impl<N: Network> ComputeKey<N> {
    pub open spec fn spec_address(self) -> Option<Address<N>> {
        match N::spec_address_from_compute_key(self.pk_sig, self.pr_sig) {
            Some(group) => Some(Address { group }),
            None => None,
        }
    }

    pub fn to_address(&self) -> (r: Option<Address<N>>)
        ensures
            r == self.spec_address(),
    {
        match N::address_from_compute_key(&self.pk_sig, &self.pr_sig) {
            Some(group) => Some(Address { group }),
            None => None,
        }
    }
}

/// The challenge hash input: the x-coordinates of `(g_r, pk_sig, pr_sig, address)`
/// followed by the message.
pub open spec fn challenge_preimage<N: Network>(
    g_r: N::Group,
    compute_key: ComputeKey<N>,
    address: Address<N>,
    message: Seq<N::Field>,
) -> Seq<N::Field> {
    seq![
        N::spec_to_x_coordinate(g_r),
        N::spec_to_x_coordinate(compute_key.pk_sig),
        N::spec_to_x_coordinate(compute_key.pr_sig),
        N::spec_to_x_coordinate(address.group),
    ] + message
}

fn build_preimage<N: Network>(
    g_r: &N::Group,
    compute_key: &ComputeKey<N>,
    address: &Address<N>,
    message: &[N::Field],
) -> (r: Vec<N::Field>)
    ensures
        r@ == challenge_preimage(*g_r, *compute_key, *address, message@),
{
    let mut preimage: Vec<N::Field> = Vec::new();
    preimage.push(N::to_x_coordinate(g_r));
    preimage.push(N::to_x_coordinate(&compute_key.pk_sig));
    preimage.push(N::to_x_coordinate(&compute_key.pr_sig));
    preimage.push(N::to_x_coordinate(&address.group));
    let ghost head = preimage@;
    let mut i: usize = 0;
    while i < message.len()
        invariant
            i <= message@.len(),
            head == challenge_preimage(*g_r, *compute_key, *address, Seq::empty()),
            preimage@ == head + message@.take(i as int),
        decreases message@.len() - i,
    {
        preimage.push(message[i]);
        i = i + 1;
        assert(preimage@ =~= head + message@.take(i as int));
    }
    assert(message@.take(i as int) =~= message@);
    assert(challenge_preimage(*g_r, *compute_key, *address, message@) =~= head + message@);
    preimage
}

/// The outcome of signing `message` with `private_key` under the nonce `nonce`.
pub open spec fn spec_sign<N: Network>(
    private_key: PrivateKey<N>,
    message: Seq<N::Field>,
    nonce: N::Scalar,
) -> Result<Signature<N>, Error> {
    if message.len() > N::spec_max_data_size_in_fields() {
        Err(Error::MessageTooLarge)
    } else {
        let compute_key = private_key.spec_compute_key();
        match compute_key.spec_address() {
            None => Err(Error::AddressDerivationFailed),
            Some(address) => {
                let g_r = N::spec_g_scalar_multiply(nonce);
                match N::spec_hash_to_scalar(challenge_preimage(g_r, compute_key, address, message)) {
                    None => Err(Error::HashToScalarFailed),
                    Some(challenge) => Ok(
                        Signature {
                            challenge,
                            response: N::spec_scalar_sub(
                                nonce,
                                N::spec_scalar_mul(challenge, private_key.sk_sig),
                            ),
                            compute_key,
                        },
                    ),
                }
            },
        }
    }
}

impl<N: Network> Signature<N> {
    /// `g_r := response * G + challenge * pk_sig`.
    pub open spec fn spec_commitment(self) -> N::Group {
        N::spec_group_add(
            N::spec_g_scalar_multiply(self.response),
            N::spec_group_scalar_mul(self.compute_key.pk_sig, self.challenge),
        )
    }

    /// A signature is valid for `(address, message)` when the message is within
    /// the size bound, the challenge hash of the commitment, keys, address and
    /// message equals the challenge, and the compute key derives `address`.
    pub open spec fn spec_verify(self, address: Address<N>, message: Seq<N::Field>) -> bool {
        &&& message.len() <= N::spec_max_data_size_in_fields()
        &&& N::spec_hash_to_scalar(
            challenge_preimage(self.spec_commitment(), self.compute_key, address, message),
        ) == Some(self.challenge)
        &&& self.compute_key.spec_address() == Some(address)
    }

    /// Sign a message of field elements; `nonce` is the fresh secret randomness
    /// of this signature.
    pub fn sign(private_key: &PrivateKey<N>, message: &[N::Field], nonce: &N::Scalar) -> (r: Result<
        Self,
        Error,
    >)
        ensures
            r == spec_sign(*private_key, message@, *nonce),
    {
        if message.len() > N::max_data_size_in_fields() {
            return Err(Error::MessageTooLarge);
        }
        let compute_key = private_key.compute_key();
        let address = match compute_key.to_address() {
            Some(address) => address,
            None => return Err(Error::AddressDerivationFailed),
        };
        let g_r = N::g_scalar_multiply(nonce);
        let preimage = build_preimage(&g_r, &compute_key, &address, message);
        let challenge = match N::hash_to_scalar(&preimage) {
            Some(challenge) => challenge,
            None => return Err(Error::HashToScalarFailed),
        };
        let product = N::scalar_mul(&challenge, &private_key.sk_sig);
        let response = N::scalar_sub(nonce, &product);
        Ok(Signature { challenge, response, compute_key })
    }

    /// Verifies `(challenge == challenge') && (address == address')` where
    /// `challenge' := HashToScalar(response * G + challenge * pk_sig, pk_sig, pr_sig, address, message)`
    /// and `address'` is derived from the signature's compute key.
    pub fn verify(&self, address: &Address<N>, message: &[N::Field]) -> (r: bool)
        ensures
            r == self.spec_verify(*address, message@),
            message@.len() > N::spec_max_data_size_in_fields() ==> !r,
    {
        if message.len() > N::max_data_size_in_fields() {
            return false;
        }
        let pk_sig = self.compute_key.pk_sig;
        let base = N::g_scalar_multiply(&self.response);
        let blinded = N::group_scalar_mul(&pk_sig, &self.challenge);
        let g_r = N::group_add(&base, &blinded);
        let preimage = build_preimage(&g_r, &self.compute_key, address, message);
        let candidate_challenge = match N::hash_to_scalar(&preimage) {
            Some(candidate_challenge) => candidate_challenge,
            None => return false,
        };
        let candidate_address = match self.compute_key.to_address() {
            Some(candidate_address) => candidate_address,
            None => return false,
        };
        N::scalar_eq(&self.challenge, &candidate_challenge) && N::group_eq(
            &address.group,
            &candidate_address.group,
        )
    }
}

/// A signature that `sign` produces verifies against the signer's address and
/// the signed message.
pub proof fn lemma_sign_then_verify<N: Network>(
    private_key: PrivateKey<N>,
    message: Seq<N::Field>,
    nonce: N::Scalar,
)
    ensures
        spec_sign(private_key, message, nonce) is Ok <==> {
            &&& message.len() <= N::spec_max_data_size_in_fields()
            &&& private_key.spec_address() is Some
            &&& N::spec_hash_to_scalar(
                challenge_preimage(
                    N::spec_g_scalar_multiply(nonce),
                    private_key.spec_compute_key(),
                    private_key.spec_address()->Some_0,
                    message,
                ),
            ) is Some
        },
        spec_sign(private_key, message, nonce) is Ok ==> spec_sign(
            private_key,
            message,
            nonce,
        )->Ok_0.spec_verify(private_key.spec_address()->Some_0, message),
{
    if let Ok(sig) = spec_sign(private_key, message, nonce) {
        N::lemma_response_opens_commitment(nonce, sig.challenge, private_key.sk_sig);
        assert(sig.spec_commitment() == N::spec_g_scalar_multiply(nonce));
    }
}

/// A signature accepted for one address is rejected for every other address.
pub proof fn lemma_address_binding<N: Network>(
    signature: Signature<N>,
    address_a: Address<N>,
    address_b: Address<N>,
    message: Seq<N::Field>,
)
    requires
        address_a != address_b,
        signature.spec_verify(address_a, message),
    ensures
        !signature.spec_verify(address_b, message),
{
}

/// A signature accepted for two different messages under one address exhibits
/// two different challenge preimages with the same hash: forging a second
/// message means finding a collision of the challenge hash.
pub proof fn lemma_second_message_is_hash_collision<N: Network>(
    signature: Signature<N>,
    address: Address<N>,
    message1: Seq<N::Field>,
    message2: Seq<N::Field>,
)
    requires
        message1 != message2,
        signature.spec_verify(address, message1),
        signature.spec_verify(address, message2),
    ensures
        ({
            let g_r = signature.spec_commitment();
            let p1 = challenge_preimage(g_r, signature.compute_key, address, message1);
            let p2 = challenge_preimage(g_r, signature.compute_key, address, message2);
            p1 != p2 && N::spec_hash_to_scalar(p1) == N::spec_hash_to_scalar(p2)
        }),
{
    let g_r = signature.spec_commitment();
    let p1 = challenge_preimage(g_r, signature.compute_key, address, message1);
    let p2 = challenge_preimage(g_r, signature.compute_key, address, message2);
    if p1 == p2 {
        assert(p1.skip(4) =~= message1);
        assert(p2.skip(4) =~= message2);
    }
}

} // verus!
