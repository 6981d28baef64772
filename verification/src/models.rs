//! Keys and cipher strings.

use crate::crypt::bytes_result;
use crate::crypt::decrypt_cipher_string;
use crate::crypt::encrypt_cipher_string;
use crate::crypt::encrypt_with_iv;
use crate::crypt::expand_key;
use crate::crypt::generate_pbkdf;
use crate::crypt::spec_decrypt_cipher_string;
use crate::crypt::spec_encrypts;
use crate::crypt::spec_expand;
use crate::encoding::decode;
use crate::encoding::encode;
use crate::error::Error;
use crate::error::Segment;
use crate::error::Setting;
use crate::format::parse_i32;
use crate::format::spec_parse;
use crate::format::split_once;
use crate::format::BAR;
use crate::format::DOT;
use crate::primitives::i32_to_string;
use crate::primitives::random_bytes;
use crate::primitives::spec_base64_decode;
use crate::primitives::spec_base64_encode;
use crate::primitives::spec_base64_sound;
use crate::primitives::spec_decimal;
use crate::primitives::spec_pbkdf2_sha256;
use crate::primitives::spec_to_lowercase;
use crate::primitives::string_from_utf8;
use crate::primitives::to_lowercase;
use vstd::prelude::*;
use vstd::string::StringExecFns;
use vstd::utf8::decode_utf8;
use vstd::utf8::encode_utf8;
use vstd::utf8::valid_utf8;

verus! {

/// One authenticated, encrypted value in the vault's format.
///
/// `raw` holds the text that the value was parsed from, so that writing it
/// out again reproduces that text; a freshly encrypted value has none and is
/// written from its fields.
#[derive(Clone, Debug)]
pub struct CipherString {
    pub enc_type: i32,
    pub mac: Vec<u8>,
    pub iv: Vec<u8>,
    pub data: Vec<u8>,
    pub raw: Option<String>,
}

/// What a `CipherString` is, as plain mathematical values.
pub struct CipherStringView {
    pub enc_type: int,
    pub mac: Seq<u8>,
    pub iv: Seq<u8>,
    pub data: Seq<u8>,
    pub raw: Option<Seq<char>>,
}

impl View for CipherString {
    type V = CipherStringView;

    open spec fn view(&self) -> CipherStringView {
        CipherStringView {
            enc_type: self.enc_type as int,
            mac: self.mac@,
            iv: self.iv@,
            data: self.data@,
            raw: match self.raw {
                Some(text) => Some(text@),
                None => None,
            },
        }
    }
}

/// A piece of text on its way to becoming a cipher string.
pub struct StringWrapper(String);

impl View for StringWrapper {
    type V = Seq<char>;

    closed spec fn view(&self) -> Seq<char> {
        self.0@
    }
}

impl StringWrapper {
    /// Wraps a copy of `input`.
    pub fn from_str(input: &str) -> (wrapper: StringWrapper)
        ensures
            wrapper@ == input@,
    {
        StringWrapper(input.to_owned())
    }

    /// Wraps `input`.
    pub fn from_string(input: String) -> (wrapper: StringWrapper)
        ensures
            wrapper@ == input@,
    {
        StringWrapper(input)
    }

    /// The text as a string slice.
    pub fn as_str(&self) -> (text: &str)
        ensures
            text@ == self@,
    {
        self.0.as_str()
    }

    /// Gives the text back.
    pub fn into_string(self) -> (text: String)
        ensures
            text@ == self@,
    {
        self.0
    }

    /// A copy of the text.
    pub fn to_string(&self) -> (text: String)
        ensures
            text@ == self@,
    {
        self.0.clone()
    }
}

/// The text that a cipher string is written as: the text it was parsed from
/// where it has one, else the canonical form of its fields.
pub open spec fn spec_serialize(cs: CipherStringView) -> Seq<char> {
    match cs.raw {
        Some(text) => text,
        None => spec_decimal(cs.enc_type) + seq!['.'] + spec_base64_encode(cs.iv) + seq!['|']
            + spec_base64_encode(cs.data) + seq!['|'] + spec_base64_encode(cs.mac),
    }
}

/// Whether the canonical form of `cs` can be read back: each of its
/// segments is sound base64.
pub open spec fn spec_written(cs: CipherStringView) -> bool {
    &&& spec_base64_sound(cs.iv)
    &&& spec_base64_sound(cs.data)
    &&& spec_base64_sound(cs.mac)
}

/// What parsing `text` gives: the fields that its bytes hold, together with
/// the text itself.
pub open spec fn spec_parse_cipher_string(text: Seq<char>) -> Result<CipherStringView, Error> {
    match spec_parse(encode_utf8(text)) {
        Ok(fields) => Ok(
            CipherStringView {
                enc_type: fields.enc_type,
                mac: fields.mac,
                iv: fields.iv,
                data: fields.data,
                raw: Some(text),
            },
        ),
        Err(e) => Err(e),
    }
}

/// A result that carries a cipher string, with the cipher string as its view.
pub open spec fn cipher_string_result(r: Result<CipherString, Error>) -> Result<
    CipherStringView,
    Error,
> {
    match r {
        Ok(cs) => Ok(cs@),
        Err(e) => Err(e),
    }
}

/// A result that carries text, with the text as a sequence of characters.
pub open spec fn text_result(r: Result<String, Error>) -> Result<Seq<char>, Error> {
    match r {
        Ok(text) => Ok(text@),
        Err(e) => Err(e),
    }
}

/// Decodes one base64 segment, reporting a malformed one as an encoding
/// failure of `segment`.
fn decode_segment(text: &[u8], segment: Segment) -> (r: Result<Vec<u8>, Error>)
    ensures
        match spec_base64_decode(text@) {
            Some(bytes) => bytes_result(r) == Ok::<Seq<u8>, Error>(bytes),
            None => r == Err::<Vec<u8>, Error>(Error::Encoding(segment)),
        },
{
    match decode(text) {
        Some(bytes) => Ok(bytes),
        None => Err(Error::Encoding(segment)),
    }
}

impl CipherString {
    /// Parses the text form `<scheme>.<iv>|<ciphertext>|<tag>`.
    ///
    /// Fails with `Error::Format` where a segment is missing and with
    /// `Error::Encoding` where a base64 segment is malformed.
    ///
    /// Text without a scheme number, that is, the three segments with no
    /// `.` in front, is accepted as scheme 2, and so is text whose scheme
    /// number cannot be read. This keeps text readable that was written
    /// before scheme numbers were introduced. It is a lossy way in: a
    /// damaged or missing scheme number goes unnoticed and the value counts
    /// as scheme 2. The text itself is kept, so nothing is lost when the
    /// value is written out again.
    pub fn parse(cipher_string: &StringWrapper) -> (r: Result<CipherString, Error>)
        ensures
            cipher_string_result(r) == spec_parse_cipher_string(cipher_string@),
    {
        let text: &[u8] = cipher_string.as_str().as_bytes();
        let raw = Some(cipher_string.to_string());
        let (head, rest) = split_once(text, DOT);
        let (enc_type, composite): (i32, &[u8]) = match rest {
            Some(rest) => {
                let enc_type: i32 = match parse_i32(head) {
                    Some(n) => n,
                    None => 2,
                };
                let (composite, _) = split_once(rest, DOT);
                (enc_type, composite)
            },
            None => (2, text),
        };
        let (iv_text, rest) = split_once(composite, BAR);
        let iv = match decode_segment(iv_text, Segment::Iv) {
            Ok(iv) => iv,
            Err(e) => { return Err(e); },
        };
        let rest = match rest {
            Some(rest) => rest,
            None => { return Err(Error::Format(Segment::Data)); },
        };
        let (data_text, rest) = split_once(rest, BAR);
        let data = match decode_segment(data_text, Segment::Data) {
            Ok(data) => data,
            Err(e) => { return Err(e); },
        };
        let rest = match rest {
            Some(rest) => rest,
            None => { return Err(Error::Format(Segment::Mac)); },
        };
        let (mac_text, _) = split_once(rest, BAR);
        let mac = match decode_segment(mac_text, Segment::Mac) {
            Ok(mac) => mac,
            Err(e) => { return Err(e); },
        };
        Ok(CipherString { enc_type, iv, data, mac, raw })
    }

    /// Writes the cipher string as text: the very text it was parsed from
    /// where there is one, else scheme number and base64 segments.
    pub fn to_string(&self) -> (text: String)
        ensures
            text@ == spec_serialize(self@),
            self@.raw is None ==> spec_written(self@),
    {
        match &self.raw {
            Some(v) => v.clone(),
            None => {
                let mut out = i32_to_string(self.enc_type);
                proof {
                    reveal_strlit(".");
                    reveal_strlit("|");
                }
                out.append(".");
                out.append(encode(self.iv.as_slice()).as_str());
                out.append("|");
                out.append(encode(self.data.as_slice()).as_str());
                out.append("|");
                out.append(encode(self.mac.as_slice()).as_str());
                assert("."@ =~= seq!['.']);
                assert("|"@ =~= seq!['|']);
                out
            },
        }
    }
}

/// What a user signs in with.
#[derive(Clone, Debug)]
pub struct Credentials {
    pub email: String,
    pub password: String,
    pub iterations: u32,
}

/// The key stretched from a master password, and the hash that proves
/// knowledge of the password to the service.
#[derive(Clone, Debug)]
pub struct MasterKey {
    pub key: Vec<u8>,
    pub hash: String,
}

/// The master key that given credentials stretch to: the password, salted
/// with the lower-cased email.
pub open spec fn spec_master_key(email: Seq<char>, password: Seq<char>, iterations: u32) -> Seq<u8> {
    spec_pbkdf2_sha256(encode_utf8(password), encode_utf8(spec_to_lowercase(email)), iterations)
}

/// The hash sent to the service in place of the master key: one more round
/// over the master key, salted with the password, in base64.
pub open spec fn spec_password_hash(master_key: Seq<u8>, password: Seq<char>) -> Seq<char> {
    spec_base64_encode(spec_pbkdf2_sha256(master_key, encode_utf8(password), 1))
}

/// Stretches a master password into the 32-byte master key. The salt is the
/// email address in lower case, which is how the service knows it.
///
/// Fails with `Error::Configuration(Setting::Iterations)` exactly when the
/// round count is zero. The result depends on the arguments alone.
pub fn derive_master_key(password: &str, email: &str, iterations: u32) -> (r: Result<Vec<u8>, Error>)
    ensures
        match r {
            Ok(key) => iterations != 0 && key@ == spec_master_key(email@, password@, iterations)
                && key@.len() == 32,
            Err(e) => iterations == 0 && e == Error::Configuration(Setting::Iterations),
        },
{
    if iterations == 0 {
        return Err(Error::Configuration(Setting::Iterations));
    }
    let salt = to_lowercase(email);
    Ok(generate_pbkdf(password.as_bytes(), salt.as_str().as_bytes(), iterations))
}

/// Derives the hash that proves knowledge of the password to the service:
/// one more round over the master key, salted with the password, in base64.
/// This is what is sent; the master key never is.
pub fn derive_password_hash(master_key: &[u8], password: &str) -> (hash: String)
    ensures
        hash@ == spec_password_hash(master_key@, password@),
{
    let hash = generate_pbkdf(master_key, password.as_bytes(), 1);
    encode(hash.as_slice())
}

impl MasterKey {
    /// Derives the master key and the password hash.
    ///
    /// Fails with `Error::Configuration(Setting::Iterations)` exactly when
    /// the round count is zero. The result depends on the credentials alone.
    pub fn from_credentials(input: &Credentials) -> (r: Result<MasterKey, Error>)
        ensures
            input.iterations == 0 ==> r == Err::<MasterKey, Error>(
                Error::Configuration(Setting::Iterations),
            ),
            input.iterations != 0 ==> r is Ok,
            r matches Ok(master) ==> master.key@ == spec_master_key(
                input.email@,
                input.password@,
                input.iterations,
            ) && master.key@.len() == 32 && master.hash@ == spec_password_hash(
                master.key@,
                input.password@,
            ),
    {
        let key = match derive_master_key(
            input.password.as_str(),
            input.email.as_str(),
            input.iterations,
        ) {
            Ok(key) => key,
            Err(e) => { return Err(e); },
        };
        let hash = derive_password_hash(key.as_slice(), input.password.as_str());
        Ok(MasterKey { key, hash })
    }
}

/// Derives the password hash that is sent to the service in place of the
/// password, without keeping the master key.
///
/// Fails with `Error::Configuration(Setting::Iterations)` exactly when the
/// round count is zero.
pub fn build_password(email: &str, password: &str, iterations: u32) -> (r: Result<String, Error>)
    ensures
        match r {
            Ok(hash) => iterations != 0 && hash@ == spec_password_hash(
                spec_master_key(email@, password@, iterations),
                password@,
            ),
            Err(e) => iterations == 0 && e == Error::Configuration(Setting::Iterations),
        },
{
    let credentials = Credentials {
        email: email.to_owned(),
        password: password.to_owned(),
        iterations,
    };
    match MasterKey::from_credentials(&credentials) {
        Ok(master) => Ok(master.hash),
        Err(e) => Err(e),
    }
}

/// An encryption key and an authentication key, 32 bytes each.
#[derive(Clone, Debug)]
pub struct SymmetricKey {
    pub mac: Vec<u8>,
    pub key: Vec<u8>,
}

/// What a `SymmetricKey` is, as plain mathematical values.
pub struct SymmetricKeyView {
    pub mac: Seq<u8>,
    pub key: Seq<u8>,
}

impl View for SymmetricKey {
    type V = SymmetricKeyView;

    open spec fn view(&self) -> SymmetricKeyView {
        SymmetricKeyView { mac: self.mac@, key: self.key@ }
    }
}

impl SymmetricKeyView {
    /// Both halves have the length that the cipher and the tag call for.
    pub open spec fn wf(self) -> bool {
        self.key.len() == 32 && self.mac.len() == 32
    }
}

/// The key pair that 64 or more bytes split into: the first 32 are the
/// encryption key, the next 32 the authentication key.
pub open spec fn spec_split_key(input: Seq<u8>) -> SymmetricKeyView {
    SymmetricKeyView { key: input.subrange(0, 32), mac: input.subrange(32, 64) }
}

/// A result that carries a key pair, with the key pair as its view.
pub open spec fn key_result(r: Result<SymmetricKey, Error>) -> Result<SymmetricKeyView, Error> {
    match r {
        Ok(key) => Ok(key@),
        Err(e) => Err(e),
    }
}

/// What reading a key pair from base64 text gives.
pub open spec fn spec_key_from_base64(input: Seq<char>) -> Result<SymmetricKeyView, Error> {
    match spec_base64_decode(encode_utf8(input)) {
        None => Err(Error::Encoding(Segment::Key)),
        Some(bytes) => if bytes.len() < 64 {
            Err(Error::KeyDerivation)
        } else {
            Ok(spec_split_key(bytes))
        },
    }
}

impl SymmetricKey {
    /// Encrypts `data` under this key with a freshly drawn IV.
    ///
    /// What holds for every draw: a result meets `spec_encrypts`, there is
    /// none where the encryption half of the key is not 32 bytes long, and
    /// the only failures are `Error::KeyDerivation` for such a key and
    /// `Error::Random` where no bytes could be drawn.
    pub fn encrypt(&self, data: &Vec<u8>) -> (r: Result<CipherString, Error>)
        ensures
            match r {
                Ok(cs) => spec_encrypts(self@, data@, cs@),
                Err(e) => e == Error::Random || (self@.key.len() != 32 && e
                    == Error::KeyDerivation),
            },
    {
        encrypt_cipher_string(self, data)
    }

    /// The key pair as text: base64 of the encryption key followed by the
    /// authentication key.
    pub fn to_string(&self) -> (text: String)
        ensures
            text@ == spec_base64_encode(self@.key + self@.mac),
            spec_base64_sound(self@.key + self@.mac),
    {
        let mut out: Vec<u8> = self.key.clone();
        out.extend_from_slice(self.mac.as_slice());
        assert(out@ =~= self@.key + self@.mac);
        encode(out.as_slice())
    }

    /// Splits 64 bytes of key material into its two halves. Bytes beyond the
    /// 64th are not used.
    ///
    /// Fails with `Error::KeyDerivation` exactly when there are fewer than
    /// 64 bytes.
    pub fn from_bytes(input: &Vec<u8>) -> (r: Result<SymmetricKey, Error>)
        ensures
            key_result(r) == if input@.len() < 64 {
                Err::<SymmetricKeyView, Error>(Error::KeyDerivation)
            } else {
                Ok::<SymmetricKeyView, Error>(spec_split_key(input@))
            },
            r matches Ok(key) ==> key@.wf(),
    {
        if input.len() < 64 {
            return Err(Error::KeyDerivation);
        }
        let key = vstd::slice::slice_to_vec(vstd::slice::slice_subrange(input.as_slice(), 0, 32));
        let mac = vstd::slice::slice_to_vec(vstd::slice::slice_subrange(input.as_slice(), 32, 64));
        Ok(SymmetricKey { mac, key })
    }

    /// Reads a key pair from the text that `to_string` writes.
    ///
    /// Fails with `Error::Encoding(Segment::Key)` where the text is not
    /// base64, and with `Error::KeyDerivation` where it holds fewer than 64
    /// bytes.
    pub fn from_base64(input: &str) -> (r: Result<SymmetricKey, Error>)
        ensures
            key_result(r) == spec_key_from_base64(input@),
            r matches Ok(key) ==> key@.wf(),
    {
        match decode(input.as_bytes()) {
            Some(bytes) => SymmetricKey::from_bytes(&bytes),
            None => Err(Error::Encoding(Segment::Key)),
        }
    }

    /// Expands a master key into the key pair that protects the vault.
    ///
    /// Fails with `Error::KeyDerivation` exactly when the master key is not
    /// 32 bytes long.
    pub fn from_master_key(input: &MasterKey) -> (r: Result<SymmetricKey, Error>)
        ensures
            key_result(r) == spec_expand(input.key@),
            r matches Ok(key) ==> key@.wf(),
    {
        match expand_key(input.key.as_slice()) {
            Ok((key, mac)) => Ok(SymmetricKey { key, mac }),
            Err(e) => Err(e),
        }
    }
}

/// The key pair that protects the local cache files.
///
/// It has the shape of a `SymmetricKey` and is a type of its own: a session
/// key cannot be passed where the key of a vault is expected, nor the other
/// way round. Both of its halves are always 32 bytes long.
#[derive(Debug)]
pub struct SessionKey {
    pair: SymmetricKey,
}

impl View for SessionKey {
    type V = SymmetricKeyView;

    closed spec fn view(&self) -> SymmetricKeyView {
        self.pair@
    }
}

impl Clone for SessionKey {
    fn clone(&self) -> (copy: Self)
        ensures
            copy@ == self@,
    {
        proof {
            use_type_invariant(self);
        }
        SessionKey { pair: SymmetricKey { key: self.pair.key.clone(), mac: self.pair.mac.clone() } }
    }
}

impl SessionKey {
    #[verifier::type_invariant]
    spec fn inv(self) -> bool {
        self.pair@.wf()
    }

    /// Reads a session key from the text that `to_string` writes.
    ///
    /// Fails with `Error::Encoding(Segment::Key)` where the text is not
    /// base64, and with `Error::KeyDerivation` where it holds fewer than 64
    /// bytes.
    pub fn from_base64(input: &str) -> (r: Result<SessionKey, Error>)
        ensures
            match r {
                Ok(key) => spec_key_from_base64(input@) == Ok::<SymmetricKeyView, Error>(key@),
                Err(e) => spec_key_from_base64(input@) == Err::<SymmetricKeyView, Error>(e),
            },
            r matches Ok(key) ==> key@.wf(),
    {
        match SymmetricKey::from_base64(input) {
            Ok(pair) => Ok(SessionKey { pair }),
            Err(e) => Err(e),
        }
    }

    /// Makes a session key of 64 bytes of key material: the first 32 are
    /// the encryption key, the next 32 the authentication key. Bytes beyond
    /// the 64th are not used.
    ///
    /// Fails with `Error::KeyDerivation` exactly when there are fewer than
    /// 64 bytes.
    pub fn from_seed(seed: &Vec<u8>) -> (r: Result<SessionKey, Error>)
        ensures
            match r {
                Ok(key) => seed@.len() >= 64 && key@ == spec_split_key(seed@) && key@.wf(),
                Err(e) => seed@.len() < 64 && e == Error::KeyDerivation,
            },
    {
        match SymmetricKey::from_bytes(seed) {
            Ok(pair) => Ok(SessionKey { pair }),
            Err(e) => Err(e),
        }
    }

    /// Draws a fresh session key: 64 bytes are drawn from the random source
    /// of the operating system and handed to `from_seed`.
    ///
    /// What holds for every draw: the only failure is `Error::Random`,
    /// where no bytes could be drawn.
    pub fn generate() -> (r: Result<SessionKey, Error>)
        ensures
            match r {
                Ok(key) => key@.wf(),
                Err(e) => e == Error::Random,
            },
    {
        match random_bytes(64) {
            Some(seed) => SessionKey::from_seed(&seed),
            None => Err(Error::Random),
        }
    }

    /// Reads the session key from `input` where there is one, and draws a
    /// fresh one where there is none. Drawing fails only with
    /// `Error::Random`.
    pub fn from_optional(input: Option<String>) -> (r: Result<SessionKey, Error>)
        ensures
            match input {
                Some(text) => match r {
                    Ok(key) => spec_key_from_base64(text@) == Ok::<SymmetricKeyView, Error>(key@),
                    Err(e) => spec_key_from_base64(text@) == Err::<SymmetricKeyView, Error>(e),
                },
                None => r matches Err(e) ==> e == Error::Random,
            },
            r matches Ok(key) ==> key@.wf(),
    {
        match input {
            Some(v) => SessionKey::from_base64(v.as_str()),
            None => SessionKey::generate(),
        }
    }

    /// The session key as text: base64 of the encryption key followed by
    /// the authentication key.
    pub fn to_string(&self) -> (text: String)
        ensures
            text@ == spec_base64_encode(self@.key + self@.mac),
            spec_base64_sound(self@.key + self@.mac),
            self@.wf(),
    {
        proof {
            use_type_invariant(self);
        }
        self.pair.to_string()
    }

    /// Encrypts `data` under this key with `iv` as the IV.
    ///
    /// Fails with `Error::Format(Segment::Iv)` exactly when the IV is not
    /// 16 bytes long; a session key always has the right size. The result
    /// holds the very IV that was given.
    pub fn encrypt_with_iv(&self, iv: Vec<u8>, data: &Vec<u8>) -> (r: Result<CipherString, Error>)
        ensures
            self@.wf(),
            match r {
                Ok(cs) => iv@.len() == 16 && cs@.iv == iv@ && spec_encrypts(self@, data@, cs@),
                Err(e) => iv@.len() != 16 && e == Error::Format(Segment::Iv),
            },
    {
        proof {
            use_type_invariant(self);
        }
        encrypt_with_iv(&self.pair, iv, data)
    }

    /// Encrypts `data` under this key with a freshly drawn IV.
    ///
    /// What holds for every draw: a result meets `spec_encrypts`, and the
    /// only failure is `Error::Random`, where no bytes could be drawn.
    pub fn encrypt(&self, data: &Vec<u8>) -> (r: Result<CipherString, Error>)
        ensures
            self@.wf(),
            match r {
                Ok(cs) => spec_encrypts(self@, data@, cs@),
                Err(e) => e == Error::Random,
            },
    {
        proof {
            use_type_invariant(self);
        }
        self.pair.encrypt(data)
    }
}

/// The text that decrypted bytes hold: they must be valid UTF-8.
pub open spec fn spec_text(r: Result<Seq<u8>, Error>) -> Result<Seq<char>, Error> {
    match r {
        Ok(bytes) => if valid_utf8(bytes) {
            Ok(decode_utf8(bytes))
        } else {
            Err(Error::Encoding(Segment::Plaintext))
        },
        Err(e) => Err(e),
    }
}

/// What decrypting under key material in one of its forms gives: the
/// material is first brought into the form of a key pair.
pub open spec fn spec_decrypt_with(
    key: Result<SymmetricKeyView, Error>,
    cs: CipherStringView,
) -> Result<Seq<u8>, Error> {
    match key {
        Ok(key) => spec_decrypt_cipher_string(key, cs),
        Err(e) => Err(e),
    }
}

/// Decryption under key material of type `T`.
pub trait Decrypt<T> {
    /// What `decrypt` returns under `key`.
    spec fn spec_decrypt(&self, key: T) -> Result<Seq<u8>, Error>;

    /// Verifies and decrypts this value under `key`.
    fn decrypt(&self, key: T) -> (r: Result<Vec<u8>, Error>)
        ensures
            bytes_result(r) == self.spec_decrypt(key),
    ;

    /// Verifies and decrypts this value and reads the result as text.
    ///
    /// Bytes that are not valid UTF-8 give `Error::Encoding`, so that a
    /// caller can tell a wrong key (`Error::Authentication`) from a value
    /// that is not text.
    fn decrypt_string(&self, key: T) -> (r: Result<String, Error>)
        ensures
            text_result(r) == spec_text(self.spec_decrypt(key)),
    {
        match self.decrypt(key) {
            Ok(bytes) => match string_from_utf8(bytes) {
                Some(text) => Ok(text),
                None => Err(Error::Encoding(Segment::Plaintext)),
            },
            Err(e) => Err(e),
        }
    }
}

impl Decrypt<&MasterKey> for CipherString {
    open spec fn spec_decrypt(&self, key: &MasterKey) -> Result<Seq<u8>, Error> {
        spec_decrypt_with(spec_expand(key.key@), self@)
    }

    fn decrypt(&self, key: &MasterKey) -> (r: Result<Vec<u8>, Error>) {
        match SymmetricKey::from_master_key(key) {
            Ok(key) => decrypt_cipher_string(&key, self),
            Err(e) => Err(e),
        }
    }
}

impl Decrypt<&SymmetricKey> for CipherString {
    open spec fn spec_decrypt(&self, key: &SymmetricKey) -> Result<Seq<u8>, Error> {
        spec_decrypt_cipher_string(key@, self@)
    }

    fn decrypt(&self, key: &SymmetricKey) -> (r: Result<Vec<u8>, Error>) {
        decrypt_cipher_string(key, self)
    }
}

impl Decrypt<&Vec<u8>> for CipherString {
    open spec fn spec_decrypt(&self, key: &Vec<u8>) -> Result<Seq<u8>, Error> {
        spec_decrypt_with(
            if key@.len() < 64 {
                Err(Error::KeyDerivation)
            } else {
                Ok(spec_split_key(key@))
            },
            self@,
        )
    }

    fn decrypt(&self, key: &Vec<u8>) -> (r: Result<Vec<u8>, Error>) {
        match SymmetricKey::from_bytes(key) {
            Ok(key) => decrypt_cipher_string(&key, self),
            Err(e) => Err(e),
        }
    }
}

impl Decrypt<&SessionKey> for CipherString {
    open spec fn spec_decrypt(&self, key: &SessionKey) -> Result<Seq<u8>, Error> {
        spec_decrypt_cipher_string(key@, self@)
    }

    fn decrypt(&self, key: &SessionKey) -> (r: Result<Vec<u8>, Error>) {
        decrypt_cipher_string(&key.pair, self)
    }
}

} // verus!
