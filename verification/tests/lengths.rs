use aead::generic_array::GenericArray;
use aead::{AeadCore, NewAead};
use chacha20poly1305::ChaCha20Poly1305;
use paperback_core::primitives::{CHACHAPOLY_KEY_LENGTH, CHACHAPOLY_NONCE_LENGTH};

type ChaChaPolyKey = GenericArray<u8, <ChaCha20Poly1305 as NewAead>::KeySize>;
type ChaChaPolyNonce = GenericArray<u8, <ChaCha20Poly1305 as AeadCore>::NonceSize>;

#[test]
fn check_length_consts() {
    // GenericArray doesn't give us a way to get the size, so we need to do this
    // in a test...
    assert_eq!(CHACHAPOLY_KEY_LENGTH, ChaChaPolyKey::default().len());
    assert_eq!(CHACHAPOLY_NONCE_LENGTH, ChaChaPolyNonce::default().len());
}
