use sha3::Digest;
use vstd::prelude::*;
use vstd::string::StrSliceExecFns;
use vstd::utf8::encode_utf8;
use crate::gui::text::{
    decimal_string, decimal_text, lemma_decimal_roundtrip, parse_u64, parsed_u64, wipe,
};

verus! {

/// The SHA-3 variants that text can be hashed with.
#[derive(Clone, Copy, PartialEq, Eq, Structural, Debug)]
pub enum HashAlgorithm {
    Sha3_224,
    Sha3_256,
    Sha3_384,
    Sha3_512,
}

/// The name under which an algorithm is shown to the user.
pub open spec fn algorithm_name(algo: HashAlgorithm) -> Seq<char> {
    match algo {
        HashAlgorithm::Sha3_224 => "SHA3-224"@,
        HashAlgorithm::Sha3_256 => "SHA3-256"@,
        HashAlgorithm::Sha3_384 => "SHA3-384"@,
        HashAlgorithm::Sha3_512 => "SHA3-512"@,
    }
}

/// Every algorithm, in the order in which they are offered.
pub open spec fn all_algorithms() -> Seq<HashAlgorithm> {
    seq![
        HashAlgorithm::Sha3_224,
        HashAlgorithm::Sha3_256,
        HashAlgorithm::Sha3_384,
        HashAlgorithm::Sha3_512,
    ]
}

impl HashAlgorithm {
    /// The name of the algorithm, such as `SHA3-256`.
    pub fn to_string(&self) -> (name: String)
        ensures
            name@ == algorithm_name(*self),
    {
        let text: &str = match self {
            HashAlgorithm::Sha3_224 => "SHA3-224",
            HashAlgorithm::Sha3_256 => "SHA3-256",
            HashAlgorithm::Sha3_384 => "SHA3-384",
            HashAlgorithm::Sha3_512 => "SHA3-512",
        };
        text.to_owned()
    }

    /// All algorithms, whatever `self` is.
    pub fn to_vec(&self) -> (algorithms: Vec<HashAlgorithm>)
        ensures
            algorithms@ == all_algorithms(),
    {
        vec![
            HashAlgorithm::Sha3_224,
            HashAlgorithm::Sha3_256,
            HashAlgorithm::Sha3_384,
            HashAlgorithm::Sha3_512,
        ]
    }
}


/// The SHA3-224 digest of `data`, as computed by the `sha3` crate.
pub uninterp spec fn sha3_224_digest(data: Seq<u8>) -> Seq<u8>;

/// The SHA3-256 digest of `data`, as computed by the `sha3` crate.
pub uninterp spec fn sha3_256_digest(data: Seq<u8>) -> Seq<u8>;

/// The SHA3-384 digest of `data`, as computed by the `sha3` crate.
pub uninterp spec fn sha3_384_digest(data: Seq<u8>) -> Seq<u8>;

/// The SHA3-512 digest of `data`, as computed by the `sha3` crate.
pub uninterp spec fn sha3_512_digest(data: Seq<u8>) -> Seq<u8>;

/// Number of bytes in a digest of the algorithm.
pub open spec fn digest_len(algo: HashAlgorithm) -> nat {
    match algo {
        HashAlgorithm::Sha3_224 => 28,
        HashAlgorithm::Sha3_256 => 32,
        HashAlgorithm::Sha3_384 => 48,
        HashAlgorithm::Sha3_512 => 64,
    }
}

/// The digest of `data` under the algorithm.
pub open spec fn digest(algo: HashAlgorithm, data: Seq<u8>) -> Seq<u8> {
    match algo {
        HashAlgorithm::Sha3_224 => sha3_224_digest(data),
        HashAlgorithm::Sha3_256 => sha3_256_digest(data),
        HashAlgorithm::Sha3_384 => sha3_384_digest(data),
        HashAlgorithm::Sha3_512 => sha3_512_digest(data),
    }
}

/// The sixteen lower-case hexadecimal digits, by value.
pub open spec fn hex_digits() -> Seq<char> {
    seq!['0', '1', '2', '3', '4', '5', '6', '7', '8', '9', 'a', 'b', 'c', 'd', 'e', 'f']
}

/// Lower-case hexadecimal text of `bytes`: two digits per byte, high nibble first.
pub open spec fn hex_lower(bytes: Seq<u8>) -> Seq<char> {
    Seq::new(
        2 * bytes.len(),
        |i: int|
            if i % 2 == 0 {
                hex_digits()[(bytes[i / 2] / 16) as int]
            } else {
                hex_digits()[(bytes[i / 2] % 16) as int]
            },
    )
}

/// Every character of `text` is a lower-case hexadecimal digit.
pub open spec fn is_lower_hex(text: Seq<char>) -> bool {
    forall|i: int| 0 <= i < text.len() ==> hex_digits().contains(#[trigger] text[i])
}

/// `text` after `rounds` rounds, each of which replaces the text by the
/// hexadecimal digest of its UTF-8 bytes.
pub open spec fn hashed_rounds(algo: HashAlgorithm, text: Seq<char>, rounds: nat) -> Seq<char>
    decreases rounds,
{
    if rounds == 0 {
        text
    } else {
        hex_lower(digest(algo, encode_utf8(hashed_rounds(algo, text, (rounds - 1) as nat))))
    }
}

/// The number of rounds that a request for `rounds` runs: zero counts as one.
pub open spec fn effective_rounds(rounds: u64) -> nat {
    if rounds == 0 {
        1
    } else {
        rounds as nat
    }
}

/// The text that hashing `text` with `rounds` rounds produces.
pub open spec fn hash_text(algo: HashAlgorithm, text: Seq<char>, rounds: u64) -> Seq<char> {
    hashed_rounds(algo, text, effective_rounds(rounds))
}

/// Calls `sha3::Sha3_224::digest`; the result is named by `sha3_224_digest`,
/// and the crate fixes its size at 28 bytes.
#[verifier::external_body]
fn sha3_224(data: &[u8]) -> (out: Vec<u8>)
    ensures
        out@ == sha3_224_digest(data@),
        out@.len() == 28,
{
    sha3::Sha3_224::digest(data).to_vec()
}

/// Calls `sha3::Sha3_256::digest`; the result is named by `sha3_256_digest`,
/// and the crate fixes its size at 32 bytes.
#[verifier::external_body]
fn sha3_256(data: &[u8]) -> (out: Vec<u8>)
    ensures
        out@ == sha3_256_digest(data@),
        out@.len() == 32,
{
    sha3::Sha3_256::digest(data).to_vec()
}

/// Calls `sha3::Sha3_384::digest`; the result is named by `sha3_384_digest`,
/// and the crate fixes its size at 48 bytes.
#[verifier::external_body]
fn sha3_384(data: &[u8]) -> (out: Vec<u8>)
    ensures
        out@ == sha3_384_digest(data@),
        out@.len() == 48,
{
    sha3::Sha3_384::digest(data).to_vec()
}

/// Calls `sha3::Sha3_512::digest`; the result is named by `sha3_512_digest`,
/// and the crate fixes its size at 64 bytes.
#[verifier::external_body]
fn sha3_512(data: &[u8]) -> (out: Vec<u8>)
    ensures
        out@ == sha3_512_digest(data@),
        out@.len() == 64,
{
    sha3::Sha3_512::digest(data).to_vec()
}

/// Calls `hex::encode`, which the crate documents as lower-case hexadecimal
/// with two digits per byte; the contract states exactly that text.
#[verifier::external_body]
fn hex_encode(data: &[u8]) -> (text: String)
    ensures
        text@ == hex_lower(data@),
{
    hex::encode(data)
}

/// The digest of `data` under `algo`.
pub fn digest_bytes(algo: HashAlgorithm, data: &[u8]) -> (out: Vec<u8>)
    ensures
        out@ == digest(algo, data@),
        out@.len() == digest_len(algo),
{
    match algo {
        HashAlgorithm::Sha3_224 => sha3_224(data),
        HashAlgorithm::Sha3_256 => sha3_256(data),
        HashAlgorithm::Sha3_384 => sha3_384(data),
        HashAlgorithm::Sha3_512 => sha3_512(data),
    }
}

/// Hexadecimal text of bytes is made of hexadecimal digits only.
pub proof fn lemma_hex_lower_is_hex(bytes: Seq<u8>)
    ensures
        hex_lower(bytes).len() == 2 * bytes.len(),
        is_lower_hex(hex_lower(bytes)),
{
    assert forall|i: int| 0 <= i < hex_lower(bytes).len() implies hex_digits().contains(
        #[trigger] hex_lower(bytes)[i],
    ) by {
        let b = bytes[i / 2];
        if i % 2 == 0 {
            assert(0 <= b / 16 < 16);
            assert(hex_digits()[(b / 16) as int] == hex_lower(bytes)[i]);
        } else {
            assert(0 <= b % 16 < 16);
            assert(hex_digits()[(b % 16) as int] == hex_lower(bytes)[i]);
        }
    }
}

/// Runs `rounds` rounds over `input`, each replacing the text by the
/// lower-case hexadecimal digest of its UTF-8 bytes; zero rounds give `input`.
pub fn hash_rounds(algo: HashAlgorithm, input: &str, rounds: u64) -> (out: String)
    ensures
        out@ == hashed_rounds(algo, input@, rounds as nat),
        rounds == 0 ==> out@ == input@,
        rounds == 1 ==> out@ == hex_lower(digest(algo, encode_utf8(input@))),
        rounds > 1 ==> out@ == hex_lower(
            digest(algo, encode_utf8(hashed_rounds(algo, input@, (rounds - 1) as nat))),
        ),
        rounds > 0 ==> out@.len() == 2 * digest_len(algo),
        rounds > 0 ==> is_lower_hex(out@),
{
    let mut current = input.to_owned();
    let mut i: u64 = 0;
    while i < rounds
        invariant
            i <= rounds,
            current@ == hashed_rounds(algo, input@, i as nat),
            i > 0 ==> current@.len() == 2 * digest_len(algo),
            i > 0 ==> is_lower_hex(current@),
        decreases rounds - i,
    {
        let bytes = current.as_str().as_bytes();
        let d = digest_bytes(algo, bytes);
        current = hex_encode(d.as_slice());
        proof {
            lemma_hex_lower_is_hex(d@);
        }
        i = i + 1;
    }
    proof {
        lemma_one_round_hashes_utf8(algo, input@);
    }
    current
}

/// Hashes `input` with `rounds` rounds of `algo`; zero rounds count as one.
pub fn hash(algo: HashAlgorithm, input: &str, rounds: u64) -> (out: String)
    ensures
        out@ == hash_text(algo, input@, rounds),
        rounds <= 1 ==> out@ == hex_lower(digest(algo, encode_utf8(input@))),
        rounds > 1 ==> out@ == hex_lower(
            digest(algo, encode_utf8(hash_text(algo, input@, (rounds - 1) as u64))),
        ),
        out@.len() == 2 * digest_len(algo),
        is_lower_hex(out@),
{
    let rounds = if rounds == 0 {
        1
    } else {
        rounds
    };
    hash_rounds(algo, input, rounds)
}


/// One round hashes the text's own UTF-8 bytes, untouched, and shows the
/// digest in lower-case hexadecimal; asking for zero rounds or one does that.
pub proof fn lemma_one_round_hashes_utf8(algo: HashAlgorithm, text: Seq<char>)
    ensures
        hashed_rounds(algo, text, 1) == hex_lower(digest(algo, encode_utf8(text))),
        hash_text(algo, text, 0) == hex_lower(digest(algo, encode_utf8(text))),
        hash_text(algo, text, 1) == hex_lower(digest(algo, encode_utf8(text))),
{
    assert(hashed_rounds(algo, text, 0) == text);
}

/// Running `a` rounds and then `b` more on the text they give is running
/// `a + b` rounds.
pub proof fn lemma_rounds_compose(algo: HashAlgorithm, text: Seq<char>, a: nat, b: nat)
    ensures
        hashed_rounds(algo, hashed_rounds(algo, text, a), b) == hashed_rounds(algo, text, a + b),
    decreases b,
{
    if b > 0 {
        lemma_rounds_compose(algo, text, a, (b - 1) as nat);
        assert((a + b - 1) as nat == a + (b - 1) as nat);
    }
}

/// Asking for zero rounds hashes exactly as asking for one.
pub proof fn lemma_zero_rounds_is_one_round(algo: HashAlgorithm, text: Seq<char>)
    ensures
        hash_text(algo, text, 0) == hash_text(algo, text, 1),
{
}

/// One more round hashes the hexadecimal text that the previous rounds gave.
pub proof fn lemma_next_round(algo: HashAlgorithm, text: Seq<char>, rounds: u64)
    requires
        1 <= rounds < u64::MAX,
    ensures
        hash_text(algo, text, (rounds + 1) as u64) == hex_lower(
            digest(algo, encode_utf8(hash_text(algo, text, rounds))),
        ),
{
}

/// Different algorithms are shown under different names.
pub proof fn lemma_algorithm_names_distinct(a: HashAlgorithm, b: HashAlgorithm)
    ensures
        algorithm_name(a) == algorithm_name(b) ==> a == b,
{
    reveal_strlit("SHA3-224");
    reveal_strlit("SHA3-256");
    reveal_strlit("SHA3-384");
    reveal_strlit("SHA3-512");
    if a != b {
        assert(algorithm_name(a)[6] != algorithm_name(b)[6] || algorithm_name(a)[7]
            != algorithm_name(b)[7]);
    }
}

/// The list of algorithms holds every algorithm, each exactly once.
pub proof fn lemma_all_algorithms_listed_once(algo: HashAlgorithm)
    ensures
        all_algorithms().contains(algo),
        forall|i: int, j: int|
            0 <= i < j < all_algorithms().len() ==> all_algorithms()[i] != all_algorithms()[j],
{
    let all = all_algorithms();
    match algo {
        HashAlgorithm::Sha3_224 => assert(all[0] == algo),
        HashAlgorithm::Sha3_256 => assert(all[1] == algo),
        HashAlgorithm::Sha3_384 => assert(all[2] == algo),
        HashAlgorithm::Sha3_512 => assert(all[3] == algo),
    }
}

/// Above this many rounds the hash is computed away from the drawing thread.
pub const INLINE_ROUNDS_LIMIT: u64 = 256;

/// What hashing an input gives: its number of characters and, when it is
/// not empty, its hash.
pub fn hash_input(algo: HashAlgorithm, input: &str, rounds: u64) -> (out: (usize, Option<String>))
    ensures
        out.0 == input@.len(),
        input@.len() == 0 ==> out.1 is None,
        input@.len() > 0 ==> (out.1 matches Some(h) && h@ == hash_text(algo, input@, rounds)),
        input@.len() > 0 && rounds <= 1 ==> (out.1 matches Some(h) && h@ == hex_lower(
            digest(algo, encode_utf8(input@)),
        )),
{
    let chars = input.unicode_len();
    if chars == 0 {
        (chars, None)
    } else {
        (chars, Some(hash(algo, input, rounds)))
    }
}

/// Hashing handed back to be run away from the drawing thread.
pub struct HashJob {
    pub algorithm: HashAlgorithm,
    pub input_text: String,
    pub rounds: u64,
}

/// What the text hashing window holds.
pub struct HashingState {
    pub open: bool,
    pub algorithm: HashAlgorithm,
    pub rounds: u64,
    pub input_text: Seq<char>,
    pub input_len: usize,
    pub output_hash: Seq<char>,
}

/// The rounds a rounds field holding `text` asks for: its number, or zero
/// when it is not one.
pub open spec fn rounds_of_text(text: Seq<char>) -> u64 {
    match parsed_u64(text) {
        Some(n) => n,
        None => 0,
    }
}

/// The rounds field shows the rounds so that reading it back gives the same
/// rounds: taking the rounds from the text the field shows changes nothing.
pub proof fn lemma_rounds_field_roundtrip(rounds: u64)
    ensures
        rounds_of_text(decimal_text(rounds as nat)) == rounds,
{
    lemma_decimal_roundtrip(rounds);
}

/// The text hashing window: the algorithm, the rounds, the input and its hash.
pub struct TextHashingUi {
    open: bool,
    algorithm: HashAlgorithm,
    rounds: u64,
    pub input_text: String,
    input_len: usize,
    pub output_hash: String,
}

impl View for TextHashingUi {
    type V = HashingState;

    closed spec fn view(&self) -> HashingState {
        HashingState {
            open: self.open,
            algorithm: self.algorithm,
            rounds: self.rounds,
            input_text: self.input_text@,
            input_len: self.input_len,
            output_hash: self.output_hash@,
        }
    }
}

impl TextHashingUi {
    /// A closed window with SHA3-224, no rounds asked for and no text.
    pub fn new() -> (ui: Self)
        ensures
            ui@ == (HashingState {
                open: false,
                algorithm: HashAlgorithm::Sha3_224,
                rounds: 0,
                input_text: Seq::empty(),
                input_len: 0,
                output_hash: Seq::empty(),
            }),
    {
        TextHashingUi {
            open: false,
            algorithm: HashAlgorithm::Sha3_224,
            rounds: 0,
            input_text: String::new(),
            input_len: 0,
            output_hash: String::new(),
        }
    }

    pub fn is_open(&self) -> (open: bool)
        ensures
            open == self@.open,
    {
        self.open
    }

    pub fn open(&mut self)
        ensures
            final(self)@ == (HashingState { open: true, ..old(self)@ }),
    {
        self.open = true;
    }

    pub fn close(&mut self)
        ensures
            final(self)@ == (HashingState { open: false, ..old(self)@ }),
    {
        self.open = false;
    }

    pub fn algorithm(&self) -> (algo: HashAlgorithm)
        ensures
            algo == self@.algorithm,
    {
        self.algorithm
    }

    pub fn rounds(&self) -> (rounds: u64)
        ensures
            rounds == self@.rounds,
    {
        self.rounds
    }

    /// Number of characters of the input when it was last hashed.
    pub fn input_len(&self) -> (len: usize)
        ensures
            len == self@.input_len,
    {
        self.input_len
    }

    /// The text the rounds field shows.
    pub fn rounds_text(&self) -> (text: String)
        ensures
            text@ == decimal_text(self@.rounds as nat),
    {
        decimal_string(self.rounds)
    }

    /// Takes the rounds from what the rounds field holds: its number, or
    /// zero when it is not a number.
    pub fn set_rounds_text(&mut self, text: &str)
        ensures
            final(self)@ == (HashingState { rounds: rounds_of_text(text@), ..old(self)@ }),
    {
        self.rounds = match parse_u64(text) {
            Some(n) => n,
            None => 0,
        };
    }

    /// Whether hashing with the current rounds is run in the background.
    pub fn hashes_in_background(&self) -> (background: bool)
        ensures
            background == (self@.rounds > INLINE_ROUNDS_LIMIT),
    {
        self.rounds > INLINE_ROUNDS_LIMIT
    }

    /// Records what hashing the input gave: its length, and its hash if any;
    /// a hash that is replaced is wiped first.
    pub fn apply_hash_result(&mut self, input_len: usize, output: Option<String>)
        ensures
            final(self)@ == (HashingState {
                input_len: input_len,
                output_hash: match output {
                    Some(h) => h@,
                    None => old(self)@.output_hash,
                },
                ..old(self)@
            }),
    {
        self.input_len = input_len;
        if let Some(h) = output {
            wipe(&mut self.output_hash);
            self.output_hash = h;
        }
    }

    /// Hashes the input with the chosen algorithm and rounds, in place when
    /// the rounds are at most [`INLINE_ROUNDS_LIMIT`]: the input length is
    /// recorded and, for a non-empty input, its hash is shown. Above the limit
    /// nothing changes here, and the job is handed back to be run elsewhere
    /// (with [`hash_input`], its outcome recorded by `apply_hash_result`).
    pub fn calculate_hash(&mut self) -> (job: Option<HashJob>)
        ensures
            old(self)@.rounds <= INLINE_ROUNDS_LIMIT ==> {
                &&& job is None
                &&& final(self)@.input_len == old(self)@.input_text.len()
                &&& final(self)@ == (HashingState {
                    input_len: final(self)@.input_len,
                    output_hash: if old(self)@.input_text.len() == 0 {
                        old(self)@.output_hash
                    } else {
                        hash_text(old(self)@.algorithm, old(self)@.input_text, old(self)@.rounds)
                    },
                    ..old(self)@
                })
            },
            old(self)@.rounds > INLINE_ROUNDS_LIMIT ==> {
                &&& final(self)@ == old(self)@
                &&& job matches Some(j)
                &&& j.algorithm == old(self)@.algorithm
                &&& j.input_text@ == old(self)@.input_text
                &&& j.rounds == old(self)@.rounds
            },
    {
        if self.rounds > INLINE_ROUNDS_LIMIT {
            return Some(
                HashJob {
                    algorithm: self.algorithm,
                    input_text: self.input_text.clone(),
                    rounds: self.rounds,
                },
            );
        }
        let (len, output) = hash_input(self.algorithm, self.input_text.as_str(), self.rounds);
        self.apply_hash_result(len, output);
        None
    }

    /// Chooses the algorithm, without hashing again.
    pub fn set_algorithm(&mut self, algo: HashAlgorithm)
        ensures
            final(self)@ == (HashingState { algorithm: algo, ..old(self)@ }),
    {
        self.algorithm = algo;
    }

    /// Chooses the algorithm and hashes the input again with it, as
    /// `calculate_hash` does: in place up to the limit, else as a job handed back.
    pub fn select_algorithm(&mut self, algo: HashAlgorithm) -> (job: Option<HashJob>)
        ensures
            old(self)@.rounds <= INLINE_ROUNDS_LIMIT ==> {
                &&& job is None
                &&& final(self)@.input_len == old(self)@.input_text.len()
                &&& final(self)@ == (HashingState {
                    algorithm: algo,
                    input_len: final(self)@.input_len,
                    output_hash: if old(self)@.input_text.len() == 0 {
                        old(self)@.output_hash
                    } else {
                        hash_text(algo, old(self)@.input_text, old(self)@.rounds)
                    },
                    ..old(self)@
                })
            },
            old(self)@.rounds > INLINE_ROUNDS_LIMIT ==> {
                &&& final(self)@ == (HashingState { algorithm: algo, ..old(self)@ })
                &&& job matches Some(j)
                &&& j.algorithm == algo
                &&& j.input_text@ == old(self)@.input_text
                &&& j.rounds == old(self)@.rounds
            },
    {
        self.set_algorithm(algo);
        self.calculate_hash()
    }

    /// Replaces the input, wiping the text it held.
    pub fn set_input_text(&mut self, text: String)
        ensures
            final(self)@ == (HashingState { input_text: text@, ..old(self)@ }),
    {
        wipe(&mut self.input_text);
        self.input_text = text;
    }

    /// Wipes the shown hash when the input was empty when last hashed.
    pub fn clear_stale_output(&mut self)
        ensures
            final(self)@ == (HashingState {
                output_hash: if old(self)@.input_len == 0 {
                    Seq::empty()
                } else {
                    old(self)@.output_hash
                },
                ..old(self)@
            }),
    {
        if self.input_len == 0 {
            wipe(&mut self.output_hash);
        }
    }

    /// Wipes the input and the hash.
    pub fn erase(&mut self)
        ensures
            final(self)@ == (HashingState {
                input_text: Seq::empty(),
                output_hash: Seq::empty(),
                ..old(self)@
            }),
    {
        wipe(&mut self.input_text);
        wipe(&mut self.output_hash);
    }
}

} // verus!
