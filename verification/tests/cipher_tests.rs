use crypto_kit::xor_cipher::CipherError;
use crypto_kit::xor_cipher::XORCipher;
use num_bigint::BigUint;
use num_bigint::RandBigInt;
use num_traits::FromPrimitive;
use num_traits::Zero;

#[test]
fn simple() {
    assert!(2 + 2 == 4);
}

#[test]
fn simple_fail() {
    assert!(2 + 2 != 1);
}

#[test]
fn simple_xor() {
    // Simply xors a message space according a simple secret and decrypts.
    // **Encryption:**
    // 5  (message):           0000 0101
    // 10 (secret):            0000 1010
    // ---------------------------------
    // cipher_text:            0000 1111
    //
    // **Decryption:**
    // cipher_text:            0000 1111
    // 10 (secret):            0000 1010
    // ---------------------------------
    // decrypted_text:         0000 0101
    let message: u32 = 5;
    let secret: u32 = 10;

    // Create the cipher_text using XOR on the message and secret.
    // Using this simple example, the cipher text should be 15.
    let cipher_text: u32 = message ^ secret;
    assert!(cipher_text == 15);

    // Decrypt the cipher text using XOR with the secret. It should be equal
    // to the original message.
    let decrypted_message: u32 = cipher_text ^ secret;
    assert!(decrypted_message == message);

    // Small keyspaces are easy to break with exhaustive searches.
    let mut secret_guess: u32 = 0;
    loop {
        if message == cipher_text ^ secret_guess {
            break;
        }

        secret_guess = secret_guess + 1;
    }
    // Assert that the secret has been found.
    assert!(secret_guess == secret);
}

#[test]
fn xor_cipher_simple_xor() {
    let message: u32 = 5;
    let secret: u32 = 10;

    let cipher_text: u32 = message ^ secret;
    assert!(cipher_text == 15);

    let decrypted_message: u32 = cipher_text ^ secret;
    assert!(decrypted_message == message);

    let mut secret_guess: u32 = 0;
    loop {
        if message == cipher_text ^ secret_guess {
            break;
        }

        secret_guess = secret_guess + 1;
    }
    assert!(secret_guess == secret);
}

#[test]
fn generate_random_bigint() {
    // Simple random number assumption.
    let mut rng = rand::thread_rng();
    let random_big_num = rng.gen_biguint(1000);
    assert!(random_big_num > Zero::zero());
}

#[test]
fn xor_cipher_generate_random_bigint() {
    let mut rng = rand::thread_rng();
    let random_big_num = rng.gen_biguint(1000);
    assert!(random_big_num > Zero::zero());
}

#[test]
fn simple_biguint_from_u8() {
    let m = b"attack";
    let _bytes = BigUint::parse_bytes(m, 36).unwrap();
}

#[test]
fn xor_cipher_simple_biguint_from_u8() {
    let m = b"attack";
    let _bytes = BigUint::parse_bytes(m, 36).unwrap();
}

#[test]
fn big_num_xor() {
    // Alice and Bob are communicating with a shared secret (large random
    // number). Eve is attempting to read the message.
    let xor_cipher = XORCipher::new();
    let secret = xor_cipher.generate_secret();
    let message = "attack";

    // Alice encrypts the messages with the secret.
    let cipher_text = xor_cipher.encrypt_message(message.as_bytes(), &secret).unwrap();
    println!("Encrypted message: {:?}", cipher_text);

    // Alice sends the cipher text on an insecure channel to Bob.
    // Bob receives it and recovers the plaintext.
    let decrypted_message = xor_cipher.decrypt_message(cipher_text.as_bytes(), &secret).unwrap();
    println!("Decrypted message: {:?}", decrypted_message);
    assert!(decrypted_message == "attack");

    // Eve intercepts the message and attempts to break the cipher.
    // For brevity, we will limit the exhausitve search.
    for i in 0u32..1000 {
        let secret_guess = BigUint::from_u32(i).unwrap();
        if message
            == xor_cipher.decrypt_message(cipher_text.as_bytes(), &secret_guess).unwrap()
        {
            panic!();
        }
    }
}

#[test]
fn xor_cipher_big_num_xor() {
    let xor_cipher = XORCipher::new();
    let secret = xor_cipher.generate_secret();
    let message = "attack";

    let cipher_text = xor_cipher.encrypt_message(message.as_bytes(), &secret).unwrap();
    println!("Encrypted message: {:?}", cipher_text);

    let decrypted_message = xor_cipher.decrypt_message(cipher_text.as_bytes(), &secret).unwrap();
    println!("Decrypted message: {:?}", decrypted_message);
    assert!(decrypted_message == "attack");

    for i in 0u32..1000 {
        let secret_guess = BigUint::from_u32(i).unwrap();
        if message
            == xor_cipher.decrypt_message(cipher_text.as_bytes(), &secret_guess).unwrap()
        {
            panic!();
        }
    }
}

#[test]
fn basic_xor_cipher() {
    // Alice and Bob are communicating with a shared secret (large random
    // number). Eve is attempting to read the message.
    let cipher = XORCipher::new();
    let secret = cipher.generate_secret();
    let message = "attack";

    // Alice encrypts the messages with the secret.
    let cipher_text = cipher.encrypt_message(message.as_bytes(), &secret).unwrap();

    // Alice sends the cipher text on an insecure channel to Bob.
    // Bob receives it and recovers the plaintext.
    let decrypted_message = cipher.decrypt_message(cipher_text.as_bytes(), &secret).unwrap();
    assert!(decrypted_message == "attack");
}

#[test]
fn round_trip_simple_scenario() {
    // Message integer 5 under secret 10 encrypts to 15, which is "f" in
    // base 36; decrypting recovers "5".
    let cipher = XORCipher::new();
    let secret = BigUint::from_u32(10).unwrap();
    let cipher_text = cipher.encrypt_message(b"5", &secret).unwrap();
    assert_eq!(cipher_text, "f");
    let plain_text = cipher.decrypt_message(cipher_text.as_bytes(), &secret).unwrap();
    assert_eq!(plain_text, "5");
}

#[test]
fn round_trip_leading_zeros() {
    // Leading zero symbols do not survive the round trip: the canonical
    // base-36 encoding of the message's value comes back.
    let cipher = XORCipher::new();
    let secret = BigUint::from_u32(0).unwrap();
    let cipher_text = cipher.encrypt_message(b"00attack", &secret).unwrap();
    assert_eq!(cipher_text, "attack");
    let plain_text = cipher.decrypt_message(cipher_text.as_bytes(), &secret).unwrap();
    assert_eq!(plain_text, "attack");
}

#[test]
fn round_trip_uppercase_folds() {
    // Uppercase letters are read case-insensitively and re-encoded in
    // lowercase.
    let cipher = XORCipher::new();
    let secret = BigUint::from_u32(0).unwrap();
    let cipher_text = cipher.encrypt_message(b"ATTACK", &secret).unwrap();
    assert_eq!(cipher_text, "attack");
}

#[test]
fn invalid_alphabet_rejected() {
    let cipher = XORCipher::new();
    let secret = BigUint::from_u32(10).unwrap();
    assert_eq!(
        cipher.encrypt_message(b"attack!", &secret),
        Err(CipherError::InvalidAlphabet)
    );
    assert_eq!(
        cipher.decrypt_message(b"not a numeral", &secret),
        Err(CipherError::InvalidAlphabet)
    );
    assert!(cipher.bytes_to_biguint(b"-5").is_err());
}

#[test]
fn empty_message_rejected() {
    let cipher = XORCipher::new();
    let secret = BigUint::from_u32(10).unwrap();
    assert_eq!(cipher.encrypt_message(b"", &secret), Err(CipherError::InvalidAlphabet));
}

#[test]
fn exhaustive_search_finds_secret_in_range() {
    let cipher = XORCipher::new();
    let secret = BigUint::from_u32(500).unwrap();
    let message = String::from("attack");
    let cipher_text = cipher.encrypt_message(message.as_bytes(), &secret).unwrap();
    assert!(cipher.exhaustive_search(&message, &cipher_text, 0, 1000));
    assert!(cipher.exhaustive_search(&message, &cipher_text, 500, 501));
}

#[test]
fn exhaustive_search_misses_secret_out_of_range() {
    let cipher = XORCipher::new();
    let secret = BigUint::from_u32(500).unwrap();
    let message = String::from("attack");
    let cipher_text = cipher.encrypt_message(message.as_bytes(), &secret).unwrap();
    assert!(!cipher.exhaustive_search(&message, &cipher_text, 0, 500));
    assert!(!cipher.exhaustive_search(&message, &cipher_text, 501, 1000));
    assert!(!cipher.exhaustive_search(&message, &cipher_text, 100, 100));
}

#[test]
fn exhaustive_search_large_secret_small_range() {
    // A 256-bit secret does not lie in a small range, so the sweep fails.
    let cipher = XORCipher::new();
    let secret = cipher.generate_secret();
    let message = String::from("attack");
    let cipher_text = cipher.encrypt_message(message.as_bytes(), &secret).unwrap();
    assert!(!cipher.exhaustive_search(&message, &cipher_text, 0, 1000));
}
