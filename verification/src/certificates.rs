//! Trust in server certificates that no authority vouches for.
//!
//! A certificate is trusted once the user has accepted its fingerprint. The
//! store of accepted certificates and the decisions live here; asking the
//! user and keeping the certificates on disk is left to the caller.

use sha2::{Digest, Sha256};
use vstd::prelude::*;
use vstd::string::StringExecFns;

use crate::text::{ascii_lower, chars_of, join, lower, trim_range, trimmed};

verus! {

/// The SHA-256 digest of `data`.
pub uninterp spec fn sha256(data: Seq<u8>) -> Seq<u8>;

/// `Sha256::digest` of the crate `sha2`: hashes `data` with a fresh hasher
/// and hands out the digest. The digest depends on the data alone; which
/// bytes it holds is not stated here.
#[verifier::external_body]
fn sha256_digest(data: &[u8]) -> (digest: Vec<u8>)
    ensures
        digest@ == sha256(data@),
{
    Sha256::digest(data).to_vec()
}

/// The upper-case hexadecimal digit for `n`.
pub open spec fn hex_digit(n: int) -> char {
    if n < 10 {
        (48 + n) as char
    } else {
        (55 + n) as char
    }
}

/// The two hexadecimal digits of `byte`.
pub open spec fn hex_pair(byte: u8) -> Seq<char> {
    seq![hex_digit(byte as int / 16), hex_digit(byte as int % 16)]
}

/// The hexadecimal digits of each of `bytes`.
pub open spec fn hex_pairs(bytes: Seq<u8>) -> Seq<Seq<char>> {
    Seq::new(bytes.len(), |i: int| hex_pair(bytes[i]))
}

/// The fingerprint that shows `digest`: its bytes in upper-case
/// hexadecimal, separated by colons.
pub open spec fn fingerprint_text(digest: Seq<u8>) -> Seq<char> {
    join(hex_pairs(digest), ":"@)
}

/// `text` without its colons.
pub open spec fn without_colons(text: Seq<char>) -> Seq<char>
    decreases text.len(),
{
    if text.len() == 0 {
        Seq::empty()
    } else if text.last() == ':' {
        without_colons(text.drop_last())
    } else {
        without_colons(text.drop_last()).push(text.last())
    }
}

/// Whether an answer accepts: "y" or "yes", in any case, white space
/// around it ignored.
pub open spec fn accepting(answer: Seq<char>) -> bool {
    let word = ascii_lower(trimmed(answer));
    word == "y"@ || word == "yes"@
}

fn hex_char(n: u8) -> (c: char)
    requires
        n < 16,
    ensures
        c == hex_digit(n as int),
{
    if n < 10 {
        (48 + n) as char
    } else {
        (55 + n) as char
    }
}

/// Shows a digest as a fingerprint: its bytes in upper-case hexadecimal,
/// separated by colons.
pub fn format_fingerprint(digest: &[u8]) -> (text: String)
    ensures
        text@ == fingerprint_text(digest@),
{
    let mut text = String::new();
    let mut i: usize = 0;
    proof {
        assert(hex_pairs(digest@).take(0) =~= Seq::<Seq<char>>::empty());
    }
    while i < digest.len()
        invariant
            i <= digest@.len(),
            text@ == join(hex_pairs(digest@).take(i as int), ":"@),
        decreases digest@.len() - i,
    {
        let ghost done = hex_pairs(digest@).take(i as int);
        let ghost next = hex_pairs(digest@).take(i + 1);
        proof {
            assert(next.drop_last() =~= done);
            assert(next.last() == hex_pair(digest@[i as int]));
        }
        if i > 0 {
            text.push(':');
            proof {
                reveal_strlit(":");
                assert(text@ =~= join(done, ":"@) + ":"@);
            }
        }
        let byte = digest[i];
        let ghost before = text@;
        text.push(hex_char(byte / 16));
        text.push(hex_char(byte % 16));
        proof {
            assert(text@ =~= before + hex_pair(byte));
            if i == 0 {
                assert(text@ =~= hex_pair(byte));
            }
        }
        i += 1;
    }
    proof {
        assert(hex_pairs(digest@).take(digest@.len() as int) =~= hex_pairs(digest@));
    }
    text
}

/// The fingerprint of a certificate: its SHA-256 digest in upper-case
/// hexadecimal, the bytes separated by colons.
pub fn fingerprint(cert: &[u8]) -> (text: String)
    ensures
        text@ == fingerprint_text(sha256(cert@)),
{
    let digest = sha256_digest(cert);
    format_fingerprint(digest.as_slice())
}

/// The name of the file that keeps the certificate with `fingerprint`: the
/// fingerprint without its colons, with the extension `der`.
pub fn certificate_file_name(fingerprint: &str) -> (name: String)
    ensures
        name@ == without_colons(fingerprint@) + ".der"@,
{
    let chars = chars_of(fingerprint);
    let mut name = String::new();
    let mut i: usize = 0;
    proof {
        assert(chars@.take(0) =~= Seq::<char>::empty());
    }
    while i < chars.len()
        invariant
            i <= chars@.len(),
            name@ == without_colons(chars@.take(i as int)),
        decreases chars@.len() - i,
    {
        proof {
            assert(chars@.take(i + 1).drop_last() =~= chars@.take(i as int));
            assert(chars@.take(i + 1).last() == chars@[i as int]);
        }
        if chars[i] != ':' {
            name.push(chars[i]);
        }
        i += 1;
    }
    proof {
        assert(chars@.take(chars@.len() as int) =~= chars@);
    }
    name.append(".der");
    name
}

/// Whether an answer accepts: "y" or "yes", in any case, white space
/// around it ignored.
pub fn accepts(answer: &str) -> (yes: bool)
    ensures
        yes == accepting(answer@),
{
    let chars = chars_of(answer);
    let n = chars.len();
    let (front, back) = trim_range(&chars, 0, n);
    proof {
        assert(chars@.subrange(0, n as int) =~= answer@);
    }
    let width = back - front;
    let ghost word = ascii_lower(trimmed(answer@));
    proof {
        reveal_strlit("y");
        reveal_strlit("yes");
        assert(word.len() == width);
    }
    if width == 1 {
        let a = lower(chars[front]);
        proof {
            assert(word[0] == a);
            if a == 'y' {
                assert(word =~= "y"@);
            } else {
                assert(word[0] != "y"@[0]);
            }
        }
        a == 'y'
    } else if width == 3 {
        let a = lower(chars[front]);
        let b = lower(chars[front + 1]);
        let c = lower(chars[front + 2]);
        proof {
            assert(word[0] == a && word[1] == b && word[2] == c);
            if a == 'y' && b == 'e' && c == 's' {
                assert(word =~= "yes"@);
            } else {
                assert(word[0] != "yes"@[0] || word[1] != "yes"@[1] || word[2] != "yes"@[2]);
            }
        }
        a == 'y' && b == 'e' && c == 's'
    } else {
        false
    }
}

fn same_bytes(a: &Vec<u8>, b: &[u8]) -> (same: bool)
    ensures
        same == (a@ == b@),
{
    if a.len() != b.len() {
        return false;
    }
    let mut i: usize = 0;
    while i < a.len()
        invariant
            i <= a@.len(),
            a@.len() == b@.len(),
            forall|k: int| 0 <= k < i ==> a@[k] == b@[k],
        decreases a@.len() - i,
    {
        if a[i] != b[i] {
            return false;
        }
        i += 1;
    }
    proof {
        assert(a@ =~= b@);
    }
    true
}

fn copy_of(bytes: &[u8]) -> (copy: Vec<u8>)
    ensures
        copy@ == bytes@,
{
    let mut copy: Vec<u8> = Vec::new();
    let mut i: usize = 0;
    while i < bytes.len()
        invariant
            i <= bytes@.len(),
            copy@ == bytes@.take(i as int),
        decreases bytes@.len() - i,
    {
        copy.push(bytes[i]);
        proof {
            assert(bytes@.take(i + 1) =~= bytes@.take(i as int).push(bytes@[i as int]));
        }
        i += 1;
    }
    proof {
        assert(bytes@.take(bytes@.len() as int) =~= bytes@);
    }
    copy
}

/// What is known about a certificate that a server presents.
#[derive(Debug)]
pub enum CertCheck {
    /// It has been accepted before.
    Trusted,
    /// It is new: the user is to be asked about this fingerprint.
    Unknown(String),
}

/// The certificates that the user has accepted.
#[derive(Debug)]
pub struct PromptingCertVerifier {
    trusted_self_signed: Vec<Vec<u8>>,
}

impl PromptingCertVerifier {
    /// The certificates that are trusted.
    pub closed spec fn trusted(&self) -> Set<Seq<u8>> {
        Set::new(
            |cert: Seq<u8>|
                exists|i: int|
                    0 <= i < self.trusted_self_signed@.len() && (
                    #[trigger] self.trusted_self_signed@[i])@ == cert,
        )
    }

    /// A store that trusts no certificate yet.
    pub fn new() -> (store: Self)
        ensures
            store.trusted() == Set::<Seq<u8>>::empty(),
    {
        let store = PromptingCertVerifier { trusted_self_signed: Vec::new() };
        proof {
            assert(store.trusted() =~= Set::<Seq<u8>>::empty());
        }
        store
    }

    /// Whether `cert` has been accepted.
    pub fn is_trusted(&self, cert: &[u8]) -> (known: bool)
        ensures
            known == self.trusted().contains(cert@),
    {
        let mut i: usize = 0;
        while i < self.trusted_self_signed.len()
            invariant
                i <= self.trusted_self_signed@.len(),
                forall|k: int| 0 <= k < i ==> (#[trigger] self.trusted_self_signed@[k])@ != cert@,
            decreases self.trusted_self_signed@.len() - i,
        {
            if same_bytes(&self.trusted_self_signed[i], cert) {
                return true;
            }
            i += 1;
        }
        false
    }

    /// Accepts `cert` from now on.
    pub fn trust(&mut self, cert: &[u8])
        ensures
            final(self).trusted() == old(self).trusted().insert(cert@),
    {
        if !self.is_trusted(cert) {
            let ghost before = self.trusted_self_signed@;
            self.trusted_self_signed.push(copy_of(cert));
            proof {
                assert forall|c: Seq<u8>| self.trusted().contains(c) <==> old(
                    self,
                ).trusted().insert(cert@).contains(c) by {
                    if self.trusted().contains(c) {
                        let i = choose|i: int|
                            0 <= i < self.trusted_self_signed@.len() && (
                            #[trigger] self.trusted_self_signed@[i])@ == c;
                        if i < before.len() {
                            assert(before[i]@ == c);
                        }
                    }
                    if old(self).trusted().contains(c) {
                        let i = choose|i: int|
                            0 <= i < before.len() && (#[trigger] before[i])@ == c;
                        assert(self.trusted_self_signed@[i]@ == c);
                    }
                    if c == cert@ {
                        assert(self.trusted_self_signed@[before.len() as int]@ == c);
                    }
                }
                assert(self.trusted() =~= old(self).trusted().insert(cert@));
            }
        } else {
            proof {
                assert(self.trusted() =~= old(self).trusted().insert(cert@));
            }
        }
    }

    /// Looks at the certificate that a server presents: it is trusted
    /// already, or the user is to be asked about its fingerprint.
    pub fn check(&self, cert: &[u8]) -> (found: CertCheck)
        ensures
            found is Trusted <==> self.trusted().contains(cert@),
            found matches CertCheck::Unknown(text) ==> text@ == fingerprint_text(sha256(cert@)),
    {
        if self.is_trusted(cert) {
            CertCheck::Trusted
        } else {
            CertCheck::Unknown(fingerprint(cert))
        }
    }

    /// Takes the answer of the user about `cert`. An accepting answer makes
    /// the certificate trusted; any other leaves the store as it is.
    pub fn decide(&mut self, cert: &[u8], answer: &str) -> (accepted: bool)
        ensures
            accepted == accepting(answer@),
            accepted ==> final(self).trusted() == old(self).trusted().insert(cert@),
            !accepted ==> final(self).trusted() == old(self).trusted(),
    {
        if accepts(answer) {
            self.trust(cert);
            true
        } else {
            false
        }
    }
}


} // verus!
