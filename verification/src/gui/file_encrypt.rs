use vstd::prelude::*;
use vstd::string::StringExecFns;
use vstd::utf8::encode_utf8;
use crate::gui::argon2::{argon2_encoding, Argon2Params};
use crate::gui::text::{chars_of, push_char};
use ncrypt_me::decrypt::decrypt_data_unsecured;
use ncrypt_me::encrypt::encrypt_data_ref;
use ncrypt_me::secure_types::SecureString;
use ncrypt_me::{Argon2, Credentials};

verus! {

broadcast use vstd::string::group_string_axioms;

/// The extension that encrypted files receive.
pub const FILE_EXTENSION: &'static str = ".ncrypt";

/// The characters of [`FILE_EXTENSION`].
pub open spec fn extension() -> Seq<char> {
    seq!['.', 'n', 'c', 'r', 'y', 'p', 't']
}

/// Longest path, in bytes, that is shown whole.
pub const PATH_LABEL_MAX_BYTES: usize = 50;

/// `pat` occurs in `s` at position `i`.
pub open spec fn occurs_at(s: Seq<char>, pat: Seq<char>, i: int) -> bool {
    0 <= i && i + pat.len() <= s.len() && s.subrange(i, i + pat.len()) == pat
}

/// `pat` occurs somewhere in `s`.
pub open spec fn occurs_in(s: Seq<char>, pat: Seq<char>) -> bool {
    exists|i: int| occurs_at(s, pat, i)
}

/// `s` with every occurrence of `pat` removed, scanning from the left and
/// skipping past each occurrence that is removed (non-empty `pat`).
pub open spec fn strip_all(s: Seq<char>, pat: Seq<char>) -> Seq<char>
    decreases s.len(),
{
    if s.len() == 0 {
        s
    } else if 0 < pat.len() && occurs_at(s, pat, 0) {
        strip_all(s.subrange(pat.len() as int, s.len() as int), pat)
    } else {
        seq![s[0]] + strip_all(s.subrange(1, s.len() as int), pat)
    }
}

/// The path an encrypted file is written to.
pub open spec fn encrypted_path_of(path: Seq<char>) -> Seq<char> {
    path + extension()
}

/// The path a decrypted file is written to: every `.ncrypt` is removed.
pub open spec fn decrypted_path_of(path: Seq<char>) -> Seq<char> {
    strip_all(path, extension())
}

/// The label under which a chosen path is shown: a path of more than 50
/// bytes is cut to its first 50 characters and followed by `...`.
pub open spec fn path_label_of(path: Seq<char>) -> Seq<char> {
    if encode_utf8(path).len() > PATH_LABEL_MAX_BYTES {
        path.subrange(0, if path.len() < 50 { path.len() as int } else { 50 }) + seq!['.', '.', '.']
    } else {
        path
    }
}

/// `pat` occurs in `s` at position `i`.
fn matches_at(s: &Vec<char>, pat: &Vec<char>, i: usize) -> (found: bool)
    requires
        i + pat.len() <= s.len(),
    ensures
        found == occurs_at(s@, pat@, i as int),
{
    let m = pat.len();
    let mut k: usize = 0;
    while k < m
        invariant
            k <= m,
            m == pat.len(),
            i + m <= s.len(),
            forall|j: int| 0 <= j < k ==> s@[i + j] == pat@[j],
        decreases m - k,
    {
        if s[i + k] != pat[k] {
            assert(s@.subrange(i as int, i + m)[k as int] != pat@[k as int]);
            return false;
        }
        k = k + 1;
    }
    assert(s@.subrange(i as int, i + m) =~= pat@);
    true
}

/// `text` with every occurrence of `pat` removed, as `text.replace(pat, "")` does.
pub fn remove_all(text: &str, pat: &str) -> (out: String)
    ensures
        out@ == strip_all(text@, pat@),
{
    let s = chars_of(text);
    let p = chars_of(pat);
    let n = s.len();
    let m = p.len();
    let mut out = String::new();
    let mut i: usize = 0;
    assert(s@.subrange(0, n as int) =~= s@);
    while i < n
        invariant
            i <= n,
            n == s@.len(),
            m == p@.len(),
            s@ == text@,
            p@ == pat@,
            strip_all(s@, p@) == out@ + strip_all(s@.subrange(i as int, n as int), p@),
        decreases n - i,
    {
        let ghost rest = s@.subrange(i as int, n as int);
        if m > 0 && m <= n - i && matches_at(&s, &p, i) {
            assert(rest.subrange(0, m as int) =~= s@.subrange(i as int, (i + m) as int));
            assert(rest.subrange(m as int, rest.len() as int) =~= s@.subrange((i + m) as int, n as int));
            i = i + m;
        } else {
            proof {
                if 0 < m && occurs_at(rest, p@, 0) {
                    assert(rest.subrange(0, m as int) =~= s@.subrange(i as int, (i + m) as int));
                }
            }
            assert(rest.subrange(1, rest.len() as int) =~= s@.subrange(i + 1, n as int));
            push_char(&mut out, s[i]);
            i = i + 1;
        }
    }
    assert(s@.subrange(n as int, n as int) =~= Seq::<char>::empty());
    assert(out@ =~= strip_all(s@, p@));
    out
}

/// The path that the encryption of the file at `path` is written to.
pub fn encrypted_path(path: &str) -> (out: String)
    ensures
        out@ == encrypted_path_of(path@),
{
    let mut out = path.to_owned();
    out.append(FILE_EXTENSION);
    proof {
        reveal_strlit(".ncrypt");
    }
    assert(out@ =~= encrypted_path_of(path@));
    out
}

/// The path that the decryption of the file at `path` is written to.
pub fn decrypted_path(path: &str) -> (out: String)
    ensures
        out@ == decrypted_path_of(path@),
{
    proof {
        reveal_strlit(".ncrypt");
    }
    assert(FILE_EXTENSION@ =~= extension());
    remove_all(path, FILE_EXTENSION)
}

/// The label under which `path` is shown.
pub fn path_label(path: &str) -> (out: String)
    ensures
        out@ == path_label_of(path@),
        encode_utf8(path@).len() <= PATH_LABEL_MAX_BYTES ==> out@ == path@,
        encode_utf8(path@).len() > PATH_LABEL_MAX_BYTES ==> {
            let kept = if path@.len() < 50 { path@.len() as int } else { 50 };
            &&& out@.len() == kept + 3
            &&& forall|i: int| 0 <= i < kept ==> out@[i] == path@[i]
            &&& out@[kept] == '.' && out@[kept + 1] == '.' && out@[kept + 2] == '.'
        },
{
    if path.as_bytes().len() > PATH_LABEL_MAX_BYTES {
        let s = chars_of(path);
        let keep = if s.len() < 50 {
            s.len()
        } else {
            50
        };
        let mut out = String::new();
        let mut i: usize = 0;
        while i < keep
            invariant
                i <= keep <= s@.len(),
                s@ == path@,
                out@ == s@.subrange(0, i as int),
            decreases keep - i,
        {
            push_char(&mut out, s[i]);
            assert(out@ =~= s@.subrange(0, i + 1));
            i = i + 1;
        }
        out.append("...");
        proof {
            reveal_strlit("...");
        }
        assert(out@ =~= path_label_of(path@));
        out
    } else {
        path.to_owned()
    }
}

/// The eight bytes `nCrypt2\0` that open every file this version encrypts.
pub open spec fn encrypted_header() -> Seq<u8> {
    seq![110u8, 67u8, 114u8, 121u8, 112u8, 116u8, 50u8, 0u8]
}

/// Size of everything an encrypted file holds besides the ciphertext of the
/// data: header, length field, salts, nonce, Argon2 parameters and the tag.
pub open spec fn encryption_overhead() -> nat {
    208
}

/// The plaintext that `ncrypt_me::decrypt::decrypt_data_unsecured` gives
/// back, when it succeeds, for the encrypted bytes `data` and the username
/// and password it is handed.
pub uninterp spec fn ncrypt_plaintext(data: Seq<u8>, username: Seq<char>, password: Seq<char>) -> Seq<u8>;

/// Calls `ncrypt_me::encrypt::encrypt_data_ref` with the Argon2id parameters
/// `params` and the credentials (`username`, `password`, `password`), the
/// error turned into its text. From the crate's source: empty credentials and
/// a hash length under 32 are refused; a success is the header `nCrypt2\0`,
/// the length 180 of the encoded salts, nonce and parameters (little-endian),
/// those 180 bytes (two 64-byte salts, a 24-byte nonce, then the parameters
/// as `Argon2::encode` writes them, Argon2id and version 0x13 being what
/// `Argon2::new` sets), and the ciphertext with its 16-byte tag; and the crate's
/// own example and test decrypt it back to `data` with the same credentials.
/// Whether it succeeds otherwise rests on the operating system's random
/// generator and on memory for Argon2, and the salts and nonce are random, so
/// no clause fixes the bytes. Building the credentials panics when the
/// operating system refuses a locked allocation, which no argument decides.
#[verifier::external_body]
fn ncrypt_encrypt(params: &Argon2Params, data: &[u8], username: &str, password: &str) -> (out:
    Result<Vec<u8>, String>)
    ensures
        username@.len() == 0 || password@.len() == 0 || params.hash_length < 32 ==> out is Err,
        out matches Ok(c) ==> {
            &&& c@.len() == data@.len() + encryption_overhead()
            &&& c@.subrange(0, 8) == encrypted_header()
            &&& c@.subrange(8, 12) == seq![180u8, 0u8, 0u8, 0u8]
            &&& c@.subrange(164, 192) == argon2_encoding(*params)
            &&& ncrypt_plaintext(c@, username@, password@) == data@
        },
{
    let argon2 = Argon2::new(params.m_cost, params.t_cost, params.p_cost).with_hash_length(
        params.hash_length,
    );
    let credentials = Credentials::new(
        SecureString::from(username),
        SecureString::from(password),
        SecureString::from(password),
    );
    encrypt_data_ref(argon2, data, credentials).map_err(|e| e.to_string())
}

/// Calls `ncrypt_me::decrypt::decrypt_data_unsecured` with the credentials
/// (`username`, `password`, `password`), the error turned into its text.
/// From the crate's source: data that does not start with `nCrypt2\0` and
/// empty credentials are refused, and a success is the plaintext named by
/// `ncrypt_plaintext`, at least 208 bytes shorter than `data`. Whether it
/// succeeds otherwise also rests on memory for Argon2, which is not stated.
/// Building the credentials panics when the operating system refuses a
/// locked allocation, which no argument decides.
#[verifier::external_body]
fn ncrypt_decrypt(data: Vec<u8>, username: &str, password: &str) -> (out: Result<Vec<u8>, String>)
    ensures
        data@.len() < 8 || data@.subrange(0, 8) != encrypted_header() ==> out is Err,
        username@.len() == 0 || password@.len() == 0 ==> out is Err,
        out matches Ok(p) ==> {
            &&& p@ == ncrypt_plaintext(data@, username@, password@)
            &&& p@.len() + encryption_overhead() <= data@.len()
        },
{
    let credentials = Credentials::new(
        SecureString::from(username),
        SecureString::from(password),
        SecureString::from(password),
    );
    decrypt_data_unsecured(data, credentials).map_err(|e| e.to_string())
}

/// The messages a file job ends with.
#[derive(Clone, Copy, PartialEq, Eq, Structural, Debug)]
pub enum FileStatus {
    ReadFailed,
    EncryptFailed,
    DecryptFailed,
    WriteFailed,
    Encrypted,
    Decrypted,
}

/// The text a message starts with; what follows is an error or a path.
pub open spec fn status_prefix(status: FileStatus) -> Seq<char> {
    match status {
        FileStatus::ReadFailed => "Error reading file: "@,
        FileStatus::EncryptFailed => "Error encrypting file: "@,
        FileStatus::DecryptFailed => "Error decrypting file: "@,
        FileStatus::WriteFailed => "Error writing file: "@,
        FileStatus::Encrypted => "File encrypted successfully to "@,
        FileStatus::Decrypted => "File decrypted successfully to "@,
    }
}

/// The message shown for `status`, followed by `detail` (an error or a path).
pub fn status_message(status: FileStatus, detail: &str) -> (message: String)
    ensures
        message@ == status_prefix(status) + detail@,
{
    let prefix: &str = match status {
        FileStatus::ReadFailed => "Error reading file: ",
        FileStatus::EncryptFailed => "Error encrypting file: ",
        FileStatus::DecryptFailed => "Error decrypting file: ",
        FileStatus::WriteFailed => "Error writing file: ",
        FileStatus::Encrypted => "File encrypted successfully to ",
        FileStatus::Decrypted => "File decrypted successfully to ",
    };
    let mut message = prefix.to_owned();
    message.append(detail);
    message
}

/// What an encryption job ends with, given what the encryption gave: the
/// path and bytes to write, or the message to show.
pub fn finish_encryption(file_path: &str, outcome: Result<Vec<u8>, String>) -> (out: Result<
    (String, Vec<u8>),
    String,
>)
    ensures
        match outcome {
            Ok(c) => out matches Ok((path, bytes)) && path@ == encrypted_path_of(file_path@)
                && bytes == c,
            Err(e) => out matches Err(m) && m@ == status_prefix(FileStatus::EncryptFailed) + e@,
        },
{
    match outcome {
        Ok(c) => Ok((encrypted_path(file_path), c)),
        Err(e) => Err(status_message(FileStatus::EncryptFailed, e.as_str())),
    }
}

/// What a decryption job ends with, given what the decryption gave: the
/// path and bytes to write, or the message to show.
pub fn finish_decryption(file_path: &str, outcome: Result<Vec<u8>, String>) -> (out: Result<
    (String, Vec<u8>),
    String,
>)
    ensures
        match outcome {
            Ok(p) => out matches Ok((path, bytes)) && path@ == decrypted_path_of(file_path@)
                && bytes == p,
            Err(e) => out matches Err(m) && m@ == status_prefix(FileStatus::DecryptFailed) + e@,
        },
{
    match outcome {
        Ok(p) => Ok((decrypted_path(file_path), p)),
        Err(e) => Err(status_message(FileStatus::DecryptFailed, e.as_str())),
    }
}

/// `path` and `bytes` are what encrypting the contents `data` of the file at
/// `file_path` gives: the file name with `.ncrypt` appended, and bytes that
/// carry the header, the Argon2 parameters, and a ciphertext that the same
/// credentials decrypt back to `data`.
pub open spec fn is_encryption_of(
    argon2: Argon2Params,
    data: Seq<u8>,
    username: Seq<char>,
    password: Seq<char>,
    file_path: Seq<char>,
    path: Seq<char>,
    bytes: Seq<u8>,
) -> bool {
    &&& path == encrypted_path_of(file_path)
    &&& bytes.len() == data.len() + encryption_overhead()
    &&& bytes.subrange(0, 8) == encrypted_header()
    &&& bytes.subrange(164, 192) == argon2_encoding(argon2)
    &&& ncrypt_plaintext(bytes, username, password) == data
}

/// `path` and `plaintext` are what decrypting the contents `data` of the file
/// at `file_path` gives: the file name without any `.ncrypt`, and the plaintext.
pub open spec fn is_decryption_of(
    data: Seq<u8>,
    username: Seq<char>,
    password: Seq<char>,
    file_path: Seq<char>,
    path: Seq<char>,
    plaintext: Seq<u8>,
) -> bool {
    &&& path == decrypted_path_of(file_path)
    &&& plaintext == ncrypt_plaintext(data, username, password)
}

/// Encrypts the contents `data` of the file at `file_path` with the
/// credentials (`username`, `password`) and the Argon2 parameters: the path
/// to write (`file_path` followed by `.ncrypt`) and the encrypted bytes, or
/// the message to show.
pub fn encrypt_file(
    argon2: &Argon2Params,
    data: &[u8],
    username: &str,
    password: &str,
    file_path: &str,
) -> (out: Result<(String, Vec<u8>), String>)
    ensures
        username@.len() == 0 || password@.len() == 0 || argon2.hash_length < 32 ==> out is Err,
        out matches Ok((path, c)) ==> is_encryption_of(
            *argon2,
            data@,
            username@,
            password@,
            file_path@,
            path@,
            c@,
        ),
        out matches Err(m) ==> exists|e: Seq<char>|
            m@ == #[trigger] (status_prefix(FileStatus::EncryptFailed) + e),
{
    let outcome = ncrypt_encrypt(argon2, data, username, password);
    let ghost reported = outcome;
    let out = finish_encryption(file_path, outcome);
    proof {
        if let Err(e) = reported {
            let t = e@;
            assert(out->Err_0@ == status_prefix(FileStatus::EncryptFailed) + t);
        }
    }
    out
}

/// Decrypts the contents `data` of the file at `file_path` with the
/// credentials (`username`, `password`): the path to write (`file_path`
/// without any `.ncrypt`) and the plaintext, or the message to show.
pub fn decrypt_file(data: Vec<u8>, username: &str, password: &str, file_path: &str) -> (out:
    Result<(String, Vec<u8>), String>)
    ensures
        data@.len() < 8 || data@.subrange(0, 8) != encrypted_header() ==> out is Err,
        username@.len() == 0 || password@.len() == 0 ==> out is Err,
        out matches Ok((path, p)) ==> is_decryption_of(
            data@,
            username@,
            password@,
            file_path@,
            path@,
            p@,
        ),
        out matches Err(m) ==> exists|e: Seq<char>|
            m@ == #[trigger] (status_prefix(FileStatus::DecryptFailed) + e),
{
    let outcome = ncrypt_decrypt(data, username, password);
    let ghost reported = outcome;
    let out = finish_decryption(file_path, outcome);
    proof {
        if let Err(e) = reported {
            let t = e@;
            assert(out->Err_0@ == status_prefix(FileStatus::DecryptFailed) + t);
        }
    }
    out
}

/// Encrypting a file and decrypting what was written, with the same
/// credentials, writes the original contents back to the original path
/// (when that path holds no `.ncrypt`), whenever the decryption succeeds.
pub proof fn lemma_encrypt_then_decrypt(
    argon2: Argon2Params,
    file_path: Seq<char>,
    data: Seq<u8>,
    username: Seq<char>,
    password: Seq<char>,
    encrypted_path: Seq<char>,
    encrypted: Seq<u8>,
    restored_path: Seq<char>,
    restored: Seq<u8>,
)
    requires
        !occurs_in(file_path, extension()),
        is_encryption_of(argon2, data, username, password, file_path, encrypted_path, encrypted),
        is_decryption_of(encrypted, username, password, encrypted_path, restored_path, restored),
    ensures
        restored_path == file_path,
        restored == data,
{
    lemma_decrypted_path_restores(file_path);
}

/// The file encryption window: whether it is shown and the file chosen.
pub struct FileEncryptionUi {
    open: bool,
    pub file_path: String,
}

impl FileEncryptionUi {
    /// Whether the window is shown.
    pub closed spec fn spec_is_open(&self) -> bool {
        self.open
    }

    /// The path of the chosen file, empty when none is chosen.
    pub closed spec fn spec_file_path(&self) -> Seq<char> {
        self.file_path@
    }

    /// A shown window with no file chosen.
    pub fn new() -> (ui: Self)
        ensures
            ui.spec_is_open(),
            ui.spec_file_path() == Seq::<char>::empty(),
    {
        FileEncryptionUi { open: true, file_path: String::new() }
    }

    pub fn is_open(&self) -> (open: bool)
        ensures
            open == self.spec_is_open(),
    {
        self.open
    }

    pub fn open(&mut self)
        ensures
            final(self).spec_is_open(),
            final(self).spec_file_path() == old(self).spec_file_path(),
    {
        self.open = true;
    }

    pub fn close(&mut self)
        ensures
            !final(self).spec_is_open(),
            final(self).spec_file_path() == old(self).spec_file_path(),
    {
        self.open = false;
    }

    /// Chooses the file at `path`.
    pub fn set_file_path(&mut self, path: String)
        ensures
            final(self).spec_file_path() == path@,
            final(self).spec_is_open() == old(self).spec_is_open(),
    {
        self.file_path = path;
    }

    /// Takes the file chosen in a frame: a file dropped on the window wins
    /// over one picked in the dialog, and with neither the choice stays.
    pub fn choose_file(&mut self, picked: Option<String>, dropped: Option<String>)
        ensures
            final(self).spec_file_path() == match (picked, dropped) {
                (_, Some(d)) => d@,
                (Some(p), None) => p@,
                (None, None) => old(self).spec_file_path(),
            },
            final(self).spec_is_open() == old(self).spec_is_open(),
    {
        if let Some(p) = picked {
            self.file_path = p;
        }
        if let Some(d) = dropped {
            self.file_path = d;
        }
    }

    /// The label shown for the chosen file; none when no file is chosen.
    pub fn file_label(&self) -> (label: Option<String>)
        ensures
            self.spec_file_path().len() == 0 ==> label is None,
            self.spec_file_path().len() > 0 ==> (label matches Some(l) && l@ == path_label_of(
                self.spec_file_path(),
            )),
    {
        if self.file_path.as_str().is_empty() {
            None
        } else {
            Some(path_label(self.file_path.as_str()))
        }
    }
}

/// `.ncrypt` cannot start inside a path that does not hold it and run into
/// a `.ncrypt` appended to it, for its `.` appears only once.
proof fn lemma_no_match_at_start(path: Seq<char>)
    requires
        path.len() > 0,
        !occurs_in(path, extension()),
    ensures
        !occurs_at(path + extension(), extension(), 0),
{
    let ext = extension();
    let s = path + ext;
    if occurs_at(s, ext, 0) {
        if path.len() >= 7 {
            assert(path.subrange(0, 7) =~= s.subrange(0, 7));
            assert(occurs_at(path, ext, 0));
        } else {
            let k = path.len() as int;
            assert(s[k] == '.');
            assert(s.subrange(0, 7)[k] == ext[k]);
        }
    }
}

/// A path without `.ncrypt` loses its first character and still holds none.
proof fn lemma_tail_has_no_extension(path: Seq<char>)
    requires
        path.len() > 0,
        !occurs_in(path, extension()),
    ensures
        !occurs_in(path.subrange(1, path.len() as int), extension()),
{
    let ext = extension();
    let tail = path.subrange(1, path.len() as int);
    if occurs_in(tail, ext) {
        let i = choose|i: int| occurs_at(tail, ext, i);
        assert(path.subrange(i + 1, i + 1 + 7) =~= tail.subrange(i, i + 7));
        assert(occurs_at(path, ext, i + 1));
    }
}

/// Where `pat` does not start `s`, removal keeps the first character.
proof fn lemma_strip_all_keeps_first(s: Seq<char>, pat: Seq<char>)
    requires
        s.len() > 0,
        !occurs_at(s, pat, 0),
    ensures
        strip_all(s, pat) == seq![s[0]] + strip_all(s.subrange(1, s.len() as int), pat),
{
}

/// Removing every `.ncrypt` from `.ncrypt` leaves nothing.
proof fn lemma_strip_extension_alone()
    ensures
        strip_all(extension(), extension()) == Seq::<char>::empty(),
{
    let ext = extension();
    assert(occurs_at(ext, ext, 0)) by {
        assert(ext.subrange(0, 7) =~= ext);
    }
    assert(ext.subrange(7, 7) =~= Seq::<char>::empty());
    assert(strip_all(Seq::<char>::empty(), ext) == Seq::<char>::empty());
}

/// A path of at most 50 bytes is shown as it is; a longer one is shown as
/// its own first characters, at most 50 of them, followed by three dots.
pub proof fn lemma_path_label_is_prefix(path: Seq<char>)
    ensures
        encode_utf8(path).len() <= PATH_LABEL_MAX_BYTES ==> path_label_of(path) == path,
        encode_utf8(path).len() > PATH_LABEL_MAX_BYTES ==> {
            let kept = if path.len() < 50 { path.len() as int } else { 50 };
            &&& path_label_of(path).len() == kept + 3
            &&& forall|i: int| 0 <= i < kept ==> path_label_of(path)[i] == path[i]
            &&& path_label_of(path)[kept] == '.'
            &&& path_label_of(path)[kept + 1] == '.'
            &&& path_label_of(path)[kept + 2] == '.'
        },
{
}

/// Removing every `.ncrypt` from a path that had none, after `.ncrypt` was
/// appended to it, gives the path back: decrypting an encrypted file writes
/// to the path the original file had.
pub proof fn lemma_decrypted_path_restores(path: Seq<char>)
    requires
        !occurs_in(path, extension()),
    ensures
        decrypted_path_of(encrypted_path_of(path)) == path,
    decreases path.len(),
{
    let ext = extension();
    let s = path + ext;
    if path.len() == 0 {
        assert(s =~= ext);
        lemma_strip_extension_alone();
    } else {
        let tail = path.subrange(1, path.len() as int);
        lemma_no_match_at_start(path);
        lemma_tail_has_no_extension(path);
        lemma_decrypted_path_restores(tail);
        lemma_strip_all_keeps_first(s, ext);
        assert(s.subrange(1, s.len() as int) =~= tail + ext);
        assert(seq![path[0]] + tail =~= path);
    }
}

} // verus!
