use sha3::Digest;
use swiss_knife::gui::hashing::{
    digest_bytes, hash, hash_input, hash_rounds, HashAlgorithm, TextHashingUi, INLINE_ROUNDS_LIMIT,
};

const ABC_224: &str = "e642824c3f8cf24ad09234ee7d3c766fc9a3a5168d0c94ad73b46fdf";
const ABC_256: &str = "3a985da74fe225b2045c172d6bd390bd855f086e3e9d525b46bfe24511431532";
const ABC_384: &str = "ec01498288516fc926459f58e2c6ad8df9b473cb0fc08c2596da7cf0e49be4b298d88cea927ac7f539f1edf228376d25";
const ABC_512: &str = "b751850b1a57168a5693cd924b6b096e08f621827444f70d884f5d0240d2712e10e116e9192af3c91a7ec57647e3934057340b4cf408d5a56592f8274eec53f0";

#[test]
fn algorithm_names() {
    assert_eq!(HashAlgorithm::Sha3_224.to_string(), "SHA3-224");
    assert_eq!(HashAlgorithm::Sha3_256.to_string(), "SHA3-256");
    assert_eq!(HashAlgorithm::Sha3_384.to_string(), "SHA3-384");
    assert_eq!(HashAlgorithm::Sha3_512.to_string(), "SHA3-512");
}

#[test]
fn algorithm_list_is_complete_and_ordered() {
    for algo in [
        HashAlgorithm::Sha3_224,
        HashAlgorithm::Sha3_256,
        HashAlgorithm::Sha3_384,
        HashAlgorithm::Sha3_512,
    ] {
        assert_eq!(
            algo.to_vec(),
            vec![
                HashAlgorithm::Sha3_224,
                HashAlgorithm::Sha3_256,
                HashAlgorithm::Sha3_384,
                HashAlgorithm::Sha3_512,
            ]
        );
    }
}

#[test]
fn one_round_gives_the_standard_digests() {
    assert_eq!(hash(HashAlgorithm::Sha3_224, "abc", 1), ABC_224);
    assert_eq!(hash(HashAlgorithm::Sha3_256, "abc", 1), ABC_256);
    assert_eq!(hash(HashAlgorithm::Sha3_384, "abc", 1), ABC_384);
    assert_eq!(hash(HashAlgorithm::Sha3_512, "abc", 1), ABC_512);
    assert_eq!(
        hash(HashAlgorithm::Sha3_256, "", 1),
        "a7ffc6f8bf1ed76651c14756a061d662f580ff4de43b49fa82d80a4b80f8434a"
    );
}

#[test]
fn zero_rounds_count_as_one() {
    for algo in HashAlgorithm::Sha3_224.to_vec() {
        assert_eq!(hash(algo, "hello", 0), hash(algo, "hello", 1));
    }
}

#[test]
fn zero_raw_rounds_leave_the_text() {
    assert_eq!(hash_rounds(HashAlgorithm::Sha3_256, "hello", 0), "hello");
}

#[test]
fn each_round_hashes_the_previous_hex_text() {
    let once = hash(HashAlgorithm::Sha3_256, "abc", 1);
    let twice = hash(HashAlgorithm::Sha3_256, "abc", 2);
    assert_eq!(twice, hash(HashAlgorithm::Sha3_256, &once, 1));
    let thrice = hash(HashAlgorithm::Sha3_512, "abc", 3);
    let two = hash(HashAlgorithm::Sha3_512, "abc", 2);
    assert_eq!(thrice, hash(HashAlgorithm::Sha3_512, &two, 1));
}

#[test]
fn output_is_lower_hex_of_twice_the_digest_size() {
    let sizes = [
        (HashAlgorithm::Sha3_224, 28),
        (HashAlgorithm::Sha3_256, 32),
        (HashAlgorithm::Sha3_384, 48),
        (HashAlgorithm::Sha3_512, 64),
    ];
    for (algo, size) in sizes {
        for rounds in [0u64, 1, 5] {
            let out = hash(algo, "Ünïcödé text ✓", rounds);
            assert_eq!(out.len(), 2 * size);
            assert!(out.chars().all(|c| c.is_ascii_digit() || ('a'..='f').contains(&c)));
        }
        assert_eq!(digest_bytes(algo, b"abc").len(), size);
    }
}

#[test]
fn multibyte_input_is_hashed_as_utf8() {
    assert_eq!(
        hash(HashAlgorithm::Sha3_256, "é", 1),
        hex::encode(sha3_256_of("é".as_bytes()))
    );
}

fn sha3_256_of(data: &[u8]) -> Vec<u8> {
    sha3::Sha3_256::digest(data).to_vec()
}

#[test]
fn hashing_an_empty_input_gives_no_hash() {
    assert_eq!(hash_input(HashAlgorithm::Sha3_256, "", 3), (0, None));
    let (len, out) = hash_input(HashAlgorithm::Sha3_256, "abc", 1);
    assert_eq!(len, 3);
    assert_eq!(out.as_deref(), Some(ABC_256));
    let (len, _) = hash_input(HashAlgorithm::Sha3_256, "héllo", 1);
    assert_eq!(len, 5);
}

#[test]
fn new_window_state() {
    let ui = TextHashingUi::new();
    assert!(!ui.is_open());
    assert_eq!(ui.algorithm(), HashAlgorithm::Sha3_224);
    assert_eq!(ui.rounds(), 0);
    assert_eq!(ui.input_len(), 0);
    assert_eq!(ui.input_text, "");
    assert_eq!(ui.output_hash, "");
}

#[test]
fn open_and_close_window() {
    let mut ui = TextHashingUi::new();
    ui.open();
    assert!(ui.is_open());
    ui.close();
    assert!(!ui.is_open());
}

#[test]
fn rounds_field_round_trip() {
    let mut ui = TextHashingUi::new();
    ui.set_rounds_text("300");
    assert_eq!(ui.rounds(), 300);
    assert_eq!(ui.rounds_text(), "300");
    let text = ui.rounds_text();
    ui.set_rounds_text(&text);
    assert_eq!(ui.rounds(), 300);
    ui.set_rounds_text("3x");
    assert_eq!(ui.rounds(), 0);
    assert_eq!(ui.rounds_text(), "0");
    ui.set_rounds_text("+12");
    assert_eq!(ui.rounds(), 12);
}

#[test]
fn background_hashing_above_the_limit() {
    let mut ui = TextHashingUi::new();
    ui.set_rounds_text("256");
    assert!(!ui.hashes_in_background());
    ui.set_rounds_text("257");
    assert!(ui.hashes_in_background());
    assert_eq!(INLINE_ROUNDS_LIMIT, 256);
}

#[test]
fn calculate_hash_updates_the_output() {
    let mut ui = TextHashingUi::new();
    ui.input_text = "abc".to_string();
    ui.set_rounds_text("1");
    ui.calculate_hash();
    assert_eq!(ui.input_len(), 3);
    assert_eq!(ui.output_hash, ABC_224);
}

#[test]
fn calculate_hash_keeps_the_output_for_an_empty_input() {
    let mut ui = TextHashingUi::new();
    ui.output_hash = "previous".to_string();
    ui.calculate_hash();
    assert_eq!(ui.input_len(), 0);
    assert_eq!(ui.output_hash, "previous");
    ui.clear_stale_output();
    assert_eq!(ui.output_hash, "");
}

#[test]
fn clear_stale_output_keeps_a_hash_of_a_real_input() {
    let mut ui = TextHashingUi::new();
    ui.input_text = "abc".to_string();
    ui.calculate_hash();
    ui.clear_stale_output();
    assert_eq!(ui.output_hash, ABC_224);
}

#[test]
fn selecting_an_algorithm_rehashes() {
    let mut ui = TextHashingUi::new();
    ui.input_text = "abc".to_string();
    ui.select_algorithm(HashAlgorithm::Sha3_512);
    assert_eq!(ui.algorithm(), HashAlgorithm::Sha3_512);
    assert_eq!(ui.output_hash, ABC_512);
}

#[test]
fn apply_hash_result_records_the_outcome() {
    let mut ui = TextHashingUi::new();
    ui.apply_hash_result(4, Some("beef".to_string()));
    assert_eq!(ui.input_len(), 4);
    assert_eq!(ui.output_hash, "beef");
    ui.apply_hash_result(0, None);
    assert_eq!(ui.input_len(), 0);
    assert_eq!(ui.output_hash, "beef");
}

#[test]
fn erase_clears_the_texts() {
    let mut ui = TextHashingUi::new();
    ui.input_text = "secret".to_string();
    ui.calculate_hash();
    ui.erase();
    assert_eq!(ui.input_text, "");
    assert_eq!(ui.output_hash, "");
}

#[test]
fn set_algorithm_does_not_rehash() {
    let mut ui = TextHashingUi::new();
    ui.input_text = "abc".to_string();
    ui.calculate_hash();
    ui.set_algorithm(HashAlgorithm::Sha3_256);
    assert_eq!(ui.algorithm(), HashAlgorithm::Sha3_256);
    assert_eq!(ui.output_hash, ABC_224);
}

#[test]
fn many_rounds_are_handed_back_as_a_job() {
    let mut ui = TextHashingUi::new();
    ui.set_input_text("abc".to_string());
    ui.set_rounds_text("300");
    ui.apply_hash_result(7, Some("old".to_string()));
    let job = ui.calculate_hash().expect("a job above the limit");
    assert_eq!(ui.input_len(), 7);
    assert_eq!(ui.output_hash, "old");
    assert_eq!(job.algorithm, HashAlgorithm::Sha3_224);
    assert_eq!(job.input_text, "abc");
    assert_eq!(job.rounds, 300);
    let (len, out) = hash_input(job.algorithm, &job.input_text, job.rounds);
    ui.apply_hash_result(len, out);
    assert_eq!(ui.input_len(), 3);
    assert_eq!(ui.output_hash, hash(HashAlgorithm::Sha3_224, "abc", 300));
}

#[test]
fn selecting_an_algorithm_with_many_rounds_hands_back_a_job() {
    let mut ui = TextHashingUi::new();
    ui.set_input_text("abc".to_string());
    ui.set_rounds_text("257");
    let job = ui.select_algorithm(HashAlgorithm::Sha3_384).expect("a job");
    assert_eq!(ui.algorithm(), HashAlgorithm::Sha3_384);
    assert_eq!(ui.output_hash, "");
    assert_eq!(job.algorithm, HashAlgorithm::Sha3_384);
    assert_eq!(job.rounds, 257);
}

#[test]
fn few_rounds_are_hashed_in_place() {
    let mut ui = TextHashingUi::new();
    ui.set_input_text("abc".to_string());
    ui.set_rounds_text("256");
    assert!(ui.calculate_hash().is_none());
    assert_eq!(ui.output_hash, hash(HashAlgorithm::Sha3_224, "abc", 256));
}

#[test]
fn set_input_text_replaces_the_input() {
    let mut ui = TextHashingUi::new();
    ui.set_input_text("first".to_string());
    ui.set_input_text("second".to_string());
    assert_eq!(ui.input_text, "second");
}
