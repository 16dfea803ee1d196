use crate::user::Password;
use sha1::Digest;
use vstd::prelude::*;
use vstd::utf8::encode_utf8;

verus! {

/// What every password is followed by before it is hashed.
pub const SUFFIX: &'static str = "mI29fmAnxgTs";

/// `bcrypt::BcryptError`, which is carried through unread.
#[verifier::external_type_specification]
#[verifier::external_body]
pub struct ExBcryptError(bcrypt::BcryptError);

/// A SHA-1 hasher of the `sha1` crate. What it has taken in since it was
/// made or last reset is `sha1_absorbed`.
#[verifier::external_body]
pub struct Sha1 {
    inner: sha1::Sha1,
}

/// The bytes that a hasher has taken in since it was made or last reset.
pub uninterp spec fn sha1_absorbed(hasher: Sha1) -> Seq<u8>;

/// The SHA-1 digest of `data`.
pub uninterp spec fn sha1_digest(data: Seq<u8>) -> Seq<u8>;

/// What bcrypt says of a password held against an encoded hash: whether it
/// matches, or nothing where the hash cannot be read.
pub uninterp spec fn bcrypt_verdict(password: Seq<u8>, hash: Seq<char>) -> Option<bool>;

/// The character that stands for the decimal digit `digit`.
pub open spec fn digit_char(digit: int) -> char {
    ('0' as int + digit) as char
}

/// How an encoded hash that bcrypt made under `cost` begins: the version
/// `2b` and the cost in two decimal digits, each after a `$`, and a `$`.
pub open spec fn bcrypt_prefix(cost: u32) -> Seq<char> {
    seq!['$', '2', 'b', '$', digit_char(cost as int / 10), digit_char(cost as int % 10), '$']
}

/// `Digest::new` of the `sha1` crate: a hasher that has taken in nothing.
#[verifier::external_body]
fn sha1_new() -> (hasher: Sha1)
    ensures
        sha1_absorbed(hasher) == Seq::<u8>::empty(),
{
    Sha1 { inner: sha1::Sha1::new() }
}

/// `Digest::update` of the `sha1` crate: the hasher takes in `data` after
/// what it had.
#[verifier::external_body]
fn sha1_update(hasher: &mut Sha1, data: &[u8])
    ensures
        sha1_absorbed(*final(hasher)) == sha1_absorbed(*old(hasher)) + data@,
{
    hasher.inner.update(data)
}

/// `Clone::clone` of the `sha1` crate's hasher: the copy has taken in what
/// the hasher has.
#[verifier::external_body]
fn sha1_clone(hasher: &Sha1) -> (copy: Sha1)
    ensures
        sha1_absorbed(copy) == sha1_absorbed(*hasher),
{
    Sha1 { inner: hasher.inner.clone() }
}

/// `Digest::finalize` of the `sha1` crate: the twenty bytes of the SHA-1
/// digest of what the hasher has taken in.
#[verifier::external_body]
fn sha1_finalize(hasher: Sha1) -> (out: Vec<u8>)
    ensures
        out@ == sha1_digest(sha1_absorbed(hasher)),
        out@.len() == 20,
{
    hasher.inner.finalize().to_vec()
}

/// `Digest::reset` of the `sha1` crate: the hasher is as one newly made.
#[verifier::external_body]
fn sha1_reset(hasher: &mut Sha1)
    ensures
        sha1_absorbed(*final(hasher)) == Seq::<u8>::empty(),
{
    hasher.inner.reset()
}

/// `bcrypt::DEFAULT_COST`: the work factor that bcrypt takes where none is
/// chosen, which is twelve.
#[verifier::external_body]
fn bcrypt_default_cost() -> (cost: u32)
    ensures
        cost == 12,
{
    bcrypt::DEFAULT_COST
}

/// `bcrypt::hash`: under a salt drawn at random, an encoded hash of sixty
/// characters that begins as `bcrypt_prefix` says and that `bcrypt::verify`
/// accepts for the same password; or an error, as for a cost below 4 or
/// above 31.
#[verifier::external_body]
fn bcrypt_hash(password: &[u8], cost: u32) -> (r: Result<String, bcrypt::BcryptError>)
    ensures
        r matches Ok(hash) ==> {
            &&& 4 <= cost <= 31
            &&& hash@.len() == 60
            &&& hash@.take(7) == bcrypt_prefix(cost)
            &&& bcrypt_verdict(password@, hash@) == Some(true)
        },
{
    bcrypt::hash(password, cost)
}

/// `bcrypt::verify`: whether the password matches the encoded hash, or an
/// error where the hash cannot be read.
#[verifier::external_body]
fn bcrypt_verify(password: &[u8], hash: &str) -> (r: Result<bool, bcrypt::BcryptError>)
    ensures
        match r {
            Ok(matches) => bcrypt_verdict(password@, hash@) == Some(matches),
            Err(_) => bcrypt_verdict(password@, hash@) is None,
        },
{
    bcrypt::verify(password, hash)
}

impl Sha1 {
    /// A hasher that has taken in nothing.
    pub fn new() -> (hasher: Self)
        ensures
            sha1_absorbed(hasher) == Seq::<u8>::empty(),
    {
        sha1_new()
    }
}

/// The bytes that are hashed for `text`: its UTF-8 encoding, followed by
/// that of the suffix.
pub open spec fn salted(text: Seq<char>) -> Seq<u8> {
    encode_utf8(text + SUFFIX@)
}

/// The digest that is handed to bcrypt for `text`.
pub open spec fn gjp2_digest(text: Seq<char>) -> Seq<u8> {
    sha1_digest(salted(text))
}

/// What a verifier says of `text`: whether it matches, or nothing where the
/// verifier cannot be read.
pub open spec fn gjp2_verdict(text: Seq<char>, verifier: Seq<char>) -> Option<bool> {
    bcrypt_verdict(gjp2_digest(text), verifier)
}

/// Whether `verifier` is one that a derivation from `password` may give: an
/// encoded bcrypt hash of sixty characters, made under bcrypt's own cost,
/// that matches the password's digest.
pub open spec fn derived_from(password: Seq<char>, verifier: Seq<char>) -> bool {
    &&& verifier.len() == 60
    &&& verifier.take(7) == "$2b$12$"@
    &&& gjp2_verdict(password, verifier) == Some(true)
}

/// Whether `answer` is what a verification of `text` against `verifier`
/// gives: the verdict, or an error where there is none.
pub open spec fn answers(
    text: Seq<char>,
    verifier: Seq<char>,
    answer: Result<bool, Gjp2Error>,
) -> bool {
    match answer {
        Ok(matches) => gjp2_verdict(text, verifier) == Some(matches),
        Err(_) => gjp2_verdict(text, verifier) is None,
    }
}

/// A verifier derived from a password accepts that password: verification
/// neither fails nor refuses it.
pub proof fn lemma_round_trip(
    password: Seq<char>,
    verifier: Seq<char>,
    answer: Result<bool, Gjp2Error>,
)
    requires
        derived_from(password, verifier),
        answers(password, verifier, answer),
    ensures
        answer == Ok::<bool, Gjp2Error>(true),
{
}

/// A password verifier: an encoded bcrypt hash, as it is stored.
pub struct Gjp2(String);

impl View for Gjp2 {
    type V = Seq<char>;

    closed spec fn view(&self) -> Seq<char> {
        self.0@
    }
}

impl Gjp2 {
    /// The verifier that `gjp2` encodes, as read back from where it was
    /// stored.
    pub fn new(gjp2: &str) -> (r: Self)
        ensures
            r@ == gjp2@,
    {
        Self(gjp2.to_owned())
    }

    /// The encoded hash.
    pub fn as_str(&self) -> (s: &str)
        ensures
            s@ == self@,
    {
        self.0.as_str()
    }

    /// The verifier that bcrypt made, or its error.
    pub fn from_bcrypt(hashed: Result<String, bcrypt::BcryptError>) -> (r: Result<
        Self,
        Gjp2Error,
    >)
        ensures
            match hashed {
                Ok(hash) => r matches Ok(gjp2) && gjp2@ == hash@,
                Err(error) => r matches Err(e) && e.0 == error,
            },
    {
        match hashed {
            Ok(hash) => Ok(Self::new(hash.as_str())),
            Err(error) => Err(Gjp2Error::from(error)),
        }
    }
}

/// That bcrypt failed, and how.
pub struct Gjp2Error(pub bcrypt::BcryptError);

impl From<bcrypt::BcryptError> for Gjp2Error {
    fn from(error: bcrypt::BcryptError) -> (r: Self) {
        Self(error)
    }
}

impl vstd::std_specs::convert::FromSpecImpl<bcrypt::BcryptError> for Gjp2Error {
    open spec fn obeys_from_spec() -> bool {
        true
    }

    open spec fn from_spec(error: bcrypt::BcryptError) -> Self {
        Gjp2Error(error)
    }
}

/// bcrypt's answer to a verification, or its error.
pub fn verdict_from_bcrypt(answer: Result<bool, bcrypt::BcryptError>) -> (r: Result<
    bool,
    Gjp2Error,
>)
    ensures
        match answer {
            Ok(matches) => r == Ok::<bool, Gjp2Error>(matches),
            Err(error) => r matches Err(e) && e.0 == error,
        },
{
    match answer {
        Ok(matches) => Ok(matches),
        Err(error) => Err(Gjp2Error::from(error)),
    }
}

/// The digest of `text` followed by the suffix. The hasher starts afresh
/// for it, whatever it had taken in, and is left as one newly made.
fn salted_digest(digest: &mut Sha1, text: &str) -> (out: Vec<u8>)
    ensures
        sha1_absorbed(*final(digest)) == Seq::<u8>::empty(),
        out@ == gjp2_digest(text@),
        out@.len() == 20,
{
    let salted_text = text.to_owned().concat(SUFFIX);
    sha1_reset(digest);
    sha1_update(digest, salted_text.as_str().as_bytes());
    assert(sha1_absorbed(*digest) =~= salted(text@));
    let sha1_hash = sha1_finalize(sha1_clone(digest));
    sha1_reset(digest);
    sha1_hash
}

/// Whether `gjp2` accepts `text` as its password. It fails only where
/// bcrypt cannot read the verifier.
pub fn verify_gjp2(text: &str, gjp2: Gjp2) -> (r: Result<bool, Gjp2Error>)
    ensures
        answers(text@, gjp2@, r),
{
    let mut digest = sha1_new();
    let sha1_hash = salted_digest(&mut digest, text);
    verdict_from_bcrypt(bcrypt_verify(sha1_hash.as_slice(), gjp2.as_str()))
}

/// Derives verifiers from passwords, with one hasher for all of them.
pub struct Gjp2Generator {
    digest: Sha1,
}

impl Gjp2Generator {
    /// What the generator's hasher has taken in and not yet let go.
    pub closed spec fn pending(self) -> Seq<u8> {
        sha1_absorbed(self.digest)
    }

    /// A generator that works with `digest`.
    pub fn new(digest: Sha1) -> (r: Self)
        ensures
            r.pending() == sha1_absorbed(digest),
    {
        Self { digest }
    }

    /// The digest that is handed to bcrypt for `text`, whatever the generator
    /// has derived before.
    pub fn digest_of(&mut self, text: &str) -> (out: Vec<u8>)
        ensures
            out@ == gjp2_digest(text@),
            out@.len() == 20,
            final(self).pending() == Seq::<u8>::empty(),
    {
        salted_digest(&mut self.digest, text)
    }

    /// A verifier for `password`, under a salt that bcrypt draws: one that
    /// accepts the password, whatever the generator has derived before. It
    /// fails only where bcrypt does.
    pub fn generate_gjp2(&mut self, password: Password) -> (r: Result<Gjp2, Gjp2Error>)
        ensures
            r matches Ok(gjp2) ==> derived_from(password@, gjp2@),
            final(self).pending() == Seq::<u8>::empty(),
    {
        let sha1_hash = self.digest_of(password.as_str());
        proof {
            reveal_strlit("$2b$12$");
            assert(bcrypt_prefix(12) =~= "$2b$12$"@);
        }
        Gjp2::from_bcrypt(bcrypt_hash(sha1_hash.as_slice(), bcrypt_default_cost()))
    }
}

} // verus!
