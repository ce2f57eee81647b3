use vstd::prelude::*;

verus! {

/// The public key that an actor publishes for checking the signatures of its requests.
#[derive(Debug, Clone)]
pub struct PublicKey {
    pub id: String,
    pub owner: String,
    pub public_key_pem: String,
}

} // verus!
