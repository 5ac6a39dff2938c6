use proof_of_work::chain::{candidate_hash, Blockchain, MintOutcome, Transaction};
use proof_of_work::digits::{decimal_string, digit_str, push_decimal};
use proof_of_work::hasher::{digest, meets_difficulty, to_lower_hex, DIFFICULTY};
use proof_of_work::nonce::{Nonce, NONCE_BITS, NONCE_BYTES};
use sha2::{Digest, Sha256};

fn transfer(from: &str, to: &str, amount: u64) -> Transaction {
    Transaction { from: String::from(from), to: String::from(to), amount }
}

fn nonce(n: u64) -> Nonce {
    Nonce::from_be_bytes(&n.to_be_bytes()).unwrap()
}

#[test]
fn digest_of_the_empty_input() {
    assert_eq!(digest(b""), "e3b0c44298fc1c149afbf4c8996fb92427ae41e4649b934ca495991b7852b855");
}

#[test]
fn digest_of_abc() {
    assert_eq!(digest(b"abc"), "ba7816bf8f01cfea414140de5dae2223b00361a396177a9cb410ff61f20015ad");
}

#[test]
fn digest_has_64_lower_hex_digits() {
    for input in [&b""[..], &b"a"[..], &[0u8; 1000][..], &[0xffu8; 55][..]] {
        let hex = digest(input);
        assert_eq!(hex.len(), 64);
        assert!(hex.chars().all(|c| matches!(c, '0'..='9' | 'a'..='f')));
    }
}

#[test]
fn digest_is_the_same_every_time() {
    let once = digest(b"0SenderReceiver2142");
    let twice = digest(b"0SenderReceiver2142");
    assert_eq!(once, twice);
    assert_eq!(once, "67f6b74252e0b0b220081232be6f86ef7238ad37e8b68a3aeeec24a524f86627");
    assert_ne!(once, digest(b"0SenderReceiver2143"));
}

#[test]
fn digest_agrees_with_the_formatted_output_array() {
    for input in [&b""[..], &b"abc"[..], &b"genesisSenderReceiver212"[..]] {
        assert_eq!(digest(input), format!("{:x}", Sha256::digest(input)));
    }
}

#[test]
fn lower_hex_writes_two_digits_per_byte() {
    assert_eq!(to_lower_hex(&[]), "");
    assert_eq!(to_lower_hex(&[0x00]), "00");
    assert_eq!(to_lower_hex(&[0x00, 0xff, 0x1a, 0xa1, 0x09, 0x90]), "00ff1aa10990");
}

#[test]
fn digits_are_0_to_9_then_a_to_f() {
    let all: Vec<&str> = (0u8..16).map(digit_str).collect();
    assert_eq!(all.concat(), "0123456789abcdef");
}

#[test]
fn decimal_of_small_and_large_numbers() {
    assert_eq!(decimal_string(0), "0");
    assert_eq!(decimal_string(9), "9");
    assert_eq!(decimal_string(10), "10");
    assert_eq!(decimal_string(21), "21");
    assert_eq!(decimal_string(100_000_000), "100000000");
    assert_eq!(decimal_string(u64::MAX), "18446744073709551615");
}

#[test]
fn push_decimal_appends() {
    let mut text = String::from("n=");
    push_decimal(&mut text, 1205);
    assert_eq!(text, "n=1205");
    push_decimal(&mut text, 0);
    assert_eq!(text, "n=12050");
}

#[test]
fn difficulty_is_six_ones_anywhere() {
    assert_eq!(DIFFICULTY, 6);
    assert!(!meets_difficulty(""));
    assert!(!meets_difficulty("11111"));
    assert!(meets_difficulty("111111"));
    assert!(meets_difficulty("1111111"));
    assert!(meets_difficulty("1a1b1c1d1e1f"));
    assert!(meets_difficulty("a1b1c1d1e1f1"));
    assert!(!meets_difficulty("a1b1c1d1e1ff"));
    assert!(!meets_difficulty("0000000000000000000000000000000000000000000000000000000000000000"));
    assert!(meets_difficulty("5ec57e866c464237bdd83ea099f4b3198d4d0e891b872b813fe127fc11629888"));
    assert!(!meets_difficulty("48dce4cbc24de31dd0454da78ba1e869b2225fb7d912be5f0b5483fb52b4f278"));
}

#[test]
fn difficulty_counts_characters_not_bytes() {
    assert!(meets_difficulty("1é1→1ü1ß1𝟙1"));
    assert!(!meets_difficulty("𝟙𝟙𝟙𝟙𝟙𝟙１１１１１１"));
}

#[test]
fn nonce_zero_is_32_zero_bytes() {
    assert_eq!(Nonce::zero().to_be_bytes(), [0u8; 32]);
    assert_eq!(Nonce::zero().to_decimal(), "0");
    assert_eq!(Nonce::from_be_bytes(&[]), Some(Nonce::zero()));
    assert_eq!(Nonce::from_be_bytes(&[0]), Some(Nonce::zero()));
    assert_eq!(NONCE_BITS, 256);
    assert_eq!(NONCE_BYTES, 32);
}

#[test]
fn nonce_reads_big_endian_bytes() {
    let n = Nonce::from_be_bytes(&[1, 0]).unwrap();
    assert_eq!(n.to_decimal(), "256");
    let mut bytes = [0u8; 32];
    bytes[30] = 1;
    assert_eq!(n.to_be_bytes(), bytes);
    assert_eq!(Nonce::from_be_bytes(&[0, 0, 0, 1, 0]), Some(n));
    assert_eq!(nonce(1125).to_decimal(), "1125");
    assert_eq!(nonce(u64::MAX).to_decimal(), "18446744073709551615");
}

#[test]
fn nonce_holds_256_bits_and_no_more() {
    let top = Nonce::from_be_bytes(&[0xff; 32]).unwrap();
    assert_eq!(
        top.to_decimal(),
        "115792089237316195423570985008687907853269984665640564039457584007913129639935"
    );
    let mut padded = vec![0u8; 8];
    padded.extend_from_slice(&[0xff; 32]);
    assert_eq!(Nonce::from_be_bytes(&padded), Some(top));
    let mut over = vec![1u8];
    over.extend_from_slice(&[0u8; 32]);
    assert_eq!(Nonce::from_be_bytes(&over), None);
    let mut far_over = vec![0u8, 0, 7];
    far_over.extend_from_slice(&[0u8; 40]);
    assert_eq!(Nonce::from_be_bytes(&far_over), None);
}

#[test]
fn nonce_in_the_middle_of_the_range() {
    let mut bytes = [0u8; 32];
    bytes[6] = 1;
    bytes[30] = 0x30;
    bytes[31] = 0x39;
    let n = Nonce::from_be_bytes(&bytes).unwrap();
    assert_eq!(n.to_decimal(), "1606938044258990275541962092341162602522202993782792835313721");
    assert_eq!(n.to_be_bytes(), bytes);
}

#[test]
fn random_nonces_differ() {
    let a = Nonce::random();
    let b = Nonce::random();
    let c = Nonce::random();
    assert!(a != b || b != c);
    assert_eq!(Nonce::from_be_bytes(&a.to_be_bytes()), Some(a));
}

#[test]
fn candidate_hash_is_the_digest_of_the_plain_concatenation() {
    let hash = candidate_hash("0", &transfer("Sender", "Receiver", 21), &nonce(42));
    assert_eq!(hash, "67f6b74252e0b0b220081232be6f86ef7238ad37e8b68a3aeeec24a524f86627");
    assert_eq!(hash, digest(b"0SenderReceiver2142"));
    let hash = candidate_hash("genesis", &transfer("Sender", "Receiver", 21), &nonce(2));
    assert_eq!(hash, "5ec57e866c464237bdd83ea099f4b3198d4d0e891b872b813fe127fc11629888");
}

#[test]
fn candidate_hash_takes_text_as_utf8() {
    let hash = candidate_hash("0", &transfer("Zoë→", "Ünal", 5), &Nonce::zero());
    assert_eq!(hash, "547c5517d6c439a05ece5cb2cc857adb1ab07c988e14ff8402ac43ed3b106a1b");
}

#[test]
fn candidate_hash_has_no_delimiters() {
    let one = candidate_hash("0", &transfer("ab", "c", 1), &nonce(23));
    let other = candidate_hash("0", &transfer("a", "bc", 12), &nonce(3));
    assert_eq!(one, other);
}

#[test]
fn candidate_hash_of_a_wide_nonce() {
    let mut bytes = [0u8; 32];
    bytes[6] = 1;
    bytes[30] = 0x30;
    bytes[31] = 0x39;
    let wide = Nonce::from_be_bytes(&bytes).unwrap();
    let hash = candidate_hash("genesis", &transfer("Sender", "Receiver", 21), &wide);
    assert_eq!(hash, "8c2db07693d0c07be1fa8ab156c4b416ed84c8464b155b0df4c3e92f97056a1e");
}

#[test]
fn the_sealed_hash_is_the_candidate_hash_of_the_block() {
    let mut ledger = Blockchain::new();
    ledger.submit(transfer("Sender", "Receiver", 21));
    assert_eq!(ledger.mint(), MintOutcome::Minted);
    let block = &ledger.chain()[1];
    let again = candidate_hash(&block.prev_hash, &block.tr_data, &block.header.nonce);
    assert_eq!(block.hash, again);
    assert_eq!(block.prev_hash, ledger.chain()[0].hash);
}

#[test]
fn only_the_nonce_zero_is_zero() {
    assert!(Nonce::zero().is_zero());
    assert!(Nonce::from_be_bytes(&[0, 0, 0]).unwrap().is_zero());
    assert!(!nonce(1).is_zero());
    let mut bytes = [0u8; 32];
    bytes[0] = 0x80;
    assert!(!Nonce::from_be_bytes(&bytes).unwrap().is_zero());
}
