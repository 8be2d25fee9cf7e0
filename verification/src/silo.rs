//! Cookie islands: each registrable domain keeps its cookies in a database
//! file of its own, named by a hash of the domain, with every value sealed
//! under a key derived for that silo from the master key before it is
//! written.
use vstd::prelude::*;
use crate::crypto::{
    aes256_gcm_decrypt, aes256_gcm_encrypt, aes256_gcm_seal, fill_random, hex_char, hex_decode,
    hex_decoded,
    hex_encode, hex_lower, hkdf_sha256, hkdf_sha256_expand, is_hex_text, sha256, sha256_digest,
    SEAL_MAX,
};
use crate::text::{chars_of, concat_str, str_equal};
use vstd::utf8::encode_utf8;

verus! {

/// What can go wrong with a silo. Database and I/O failures carry the
/// message of the underlying error.
#[derive(Debug, PartialEq, Eq)]
pub enum SiloError {
    Db(String),
    Io(String),
    EncryptionFailed,
    DecryptionFailed,
}

impl SiloError {
    /// The text this error displays.
    pub open spec fn spec_message(&self) -> Seq<char> {
        match self {
            SiloError::Db(m) => "Database error: "@ + m@,
            SiloError::Io(m) => "IO error: "@ + m@,
            SiloError::EncryptionFailed => "Encryption failed"@,
            SiloError::DecryptionFailed => "Decryption failed"@,
        }
    }

    /// The text this error displays.
    pub fn message(&self) -> (s: String)
        ensures
            s@ == self.spec_message(),
    {
        match self {
            SiloError::Db(m) => concat_str("Database error: ", m.as_str()),
            SiloError::Io(m) => concat_str("IO error: ", m.as_str()),
            SiloError::EncryptionFailed => "Encryption failed".to_owned(),
            SiloError::DecryptionFailed => "Decryption failed".to_owned(),
        }
    }
}

/// A cookie as the browser hands it to its silo.
pub struct Cookie {
    pub host: String,
    pub name: String,
    pub value: Vec<u8>,
    pub path: String,
    pub secure: bool,
    pub http_only: bool,
    pub same_site: String,
    pub expiry_utc: Option<i64>,
}

/// A row of a silo's `cookies` table: the value sealed, the flags as the
/// integers 0 and 1.
pub struct CookieRecord {
    pub host: String,
    pub name: String,
    pub value: Vec<u8>,
    pub path: String,
    pub secure: i32,
    pub http_only: i32,
    pub same_site: String,
    pub expiry_utc: Option<i64>,
}

/// The integer a flag is stored as.
pub open spec fn flag_value(b: bool) -> i32 {
    if b {
        1
    } else {
        0
    }
}

/// A lowercase hex digit.
pub open spec fn is_lower_hex_digit(c: char) -> bool {
    ('0' <= c && c <= '9') || ('a' <= c && c <= 'f')
}

/// A silo file name is a plain name inside the silo directory, whatever
/// the domain: lowercase hex digits followed by `.silo.db`, with no path
/// separator, so that no domain can reach outside the directory.
pub proof fn silo_name_is_plain(domain: Seq<char>)
    ensures
        ({
            let name = silo_name(domain);
            let hex_len = name.len() - SILO_SUFFIX@.len();
            &&& hex_len >= 0
            &&& name.skip(hex_len) == SILO_SUFFIX@
            &&& forall|i: int| 0 <= i < hex_len ==> is_lower_hex_digit(#[trigger] name[i])
            &&& forall|i: int| 0 <= i < name.len() ==> #[trigger] name[i] != '/' && name[i] != '\\'
        }),
{
    reveal_strlit(".silo.db");
    let hex = hex_lower(sha256_digest(encode_utf8(domain)));
    let name = silo_name(domain);
    assert(name == hex + SILO_SUFFIX@);
    assert(name.skip(hex.len() as int) =~= SILO_SUFFIX@);
    assert forall|i: int| 0 <= i < hex.len() implies is_lower_hex_digit(#[trigger] name[i]) by {
        assert(name[i] == hex[i]);
        let d = sha256_digest(encode_utf8(domain));
        let b = d[i / 2];
        assert(b / 16 < 16 && b % 16 < 16);
    }
    assert forall|i: int| 0 <= i < name.len() implies #[trigger] name[i] != '/' && name[i] != '\\' by {
        if i < hex.len() {
            assert(is_lower_hex_digit(name[i]));
        } else {
            assert(name[i] == SILO_SUFFIX@[i - hex.len()]);
        }
    }
}

/// The suffix of every silo file name.
pub const SILO_SUFFIX: &'static str = ".silo.db";

/// The length of a sealing nonce.
pub const NONCE_LEN: usize = 12;

/// The file name of a domain's silo: the lowercase hex SHA-256 of the
/// domain's UTF-8 bytes, then `.silo.db`.
pub open spec fn silo_name(domain: Seq<char>) -> Seq<char> {
    hex_lower(sha256_digest(encode_utf8(domain))) + SILO_SUFFIX@
}

/// A silo is named by a hash of the whole domain: the lowercase hex of the
/// SHA-256 digest of all of the domain's UTF-8 bytes, then `.silo.db`.
pub proof fn silo_name_hashes_whole_domain(domain: Seq<char>)
    ensures
        silo_name(domain) == hex_lower(sha256_digest(encode_utf8(domain))) + ".silo.db"@,
{
}

/// The value below 16 that a lowercase hex digit stands for.
proof fn hex_char_injective(n: u8, m: u8)
    requires
        n < 16,
        m < 16,
        hex_char(n) == hex_char(m),
    ensures
        n == m,
{
    assert(hex_char(n) as u32 == if n < 10 { 48 + n } else { 87 + n });
    assert(hex_char(m) as u32 == if m < 10 { 48 + m } else { 87 + m });
}

/// Hex text tells its bytes apart.
proof fn hex_lower_injective(x: Seq<u8>, y: Seq<u8>)
    requires
        hex_lower(x) == hex_lower(y),
    ensures
        x == y,
{
    assert(x.len() == y.len()) by {
        assert(hex_lower(x).len() == 2 * x.len());
        assert(hex_lower(y).len() == 2 * y.len());
    }
    assert forall|i: int| 0 <= i < x.len() implies x[i] == y[i] by {
        let (a, b) = (x[i], y[i]);
        let (hx, hy) = (hex_lower(x), hex_lower(y));
        assert((2 * i) / 2 == i && (2 * i) % 2 == 0);
        assert((2 * i + 1) / 2 == i && (2 * i + 1) % 2 == 1);
        assert(hx[2 * i] == hex_char(a / 16));
        assert(hy[2 * i] == hex_char(b / 16));
        assert(hx[2 * i + 1] == hex_char(a % 16));
        assert(hy[2 * i + 1] == hex_char(b % 16));
        assert(a / 16 < 16 && a % 16 < 16 && b / 16 < 16 && b % 16 < 16);
        hex_char_injective(a / 16, b / 16);
        hex_char_injective(a % 16, b % 16);
        assert(a == (a / 16) * 16 + a % 16);
        assert(b == (b / 16) * 16 + b % 16);
    }
    assert(x =~= y);
}

/// Two domains share a silo exactly when the SHA-256 digests of their
/// whole UTF-8 bytes are equal: the name loses nothing of the digest.
pub proof fn silo_names_equal_iff_digests_equal(a: Seq<char>, b: Seq<char>)
    ensures
        silo_name(a) == silo_name(b) <==> sha256_digest(encode_utf8(a)) == sha256_digest(
            encode_utf8(b),
        ),
{
    let ha = hex_lower(sha256_digest(encode_utf8(a)));
    let hb = hex_lower(sha256_digest(encode_utf8(b)));
    if silo_name(a) == silo_name(b) {
        assert(silo_name(a) == ha + SILO_SUFFIX@);
        assert(silo_name(b) == hb + SILO_SUFFIX@);
        assert(ha.len() == hb.len());
        assert(ha =~= silo_name(a).take(ha.len() as int));
        assert(hb =~= silo_name(b).take(hb.len() as int));
        hex_lower_injective(sha256_digest(encode_utf8(a)), sha256_digest(encode_utf8(b)));
    }
}

/// The file name of the silo of `registrable_domain`, under the silo
/// directory.
pub fn silo_file_name(registrable_domain: &str) -> (name: String)
    ensures
        name@ == silo_name(registrable_domain@),
        name@.len() == 72,
{
    proof {
        reveal_strlit(".silo.db");
    }
    let digest = sha256(registrable_domain.as_bytes());
    let hex = hex_encode(digest.as_slice());
    concat_str(hex.as_str(), SILO_SUFFIX)
}

/// A sealed value: the nonce, then the AES-256-GCM ciphertext of the
/// plaintext under the key and that nonce.
pub open spec fn sealed(key: Seq<u8>, nonce: Seq<u8>, plaintext: Seq<u8>) -> Seq<u8> {
    nonce + aes256_gcm_seal(key, nonce, plaintext)
}

/// The key a domain's silo seals its values under: HKDF-SHA256 of the
/// master key, with the domain's UTF-8 bytes as context, so that each silo
/// has a key of its own.
pub open spec fn silo_key(master: Seq<u8>, domain: Seq<char>) -> Seq<u8> {
    hkdf_sha256(master, encode_utf8(domain))
}

/// What a stored master key is, when the keychain holds one: `None` where
/// it is not hex text, else the bytes it encodes.
pub open spec fn stored_key(pw: Seq<char>) -> Option<Seq<u8>> {
    if is_hex_text(pw) {
        Some(hex_decoded(pw))
    } else {
        None
    }
}

/// A master key survives a restart: the hex text that `init` hands back
/// to be stored is read back by the next `init` as the same key, and it is
/// text that `init` accepts.
pub proof fn stored_key_round_trip(key: Seq<u8>)
    requires
        key.len() == 32,
    ensures
        hex_lower(key).len() == 64,
        stored_key(hex_lower(key)) == Some(key),
{
    let text = hex_lower(key);
    assert forall|i: int| 0 <= i < text.len() implies crate::crypto::is_hex_digit(#[trigger] text[i]) by {
        let b = key[i / 2];
        assert(b / 16 < 16 && b % 16 < 16);
    }
    assert(is_hex_text(text));
    assert forall|i: int| 0 <= i < key.len() implies #[trigger] hex_decoded(text)[i] == key[i] by {
        let b = key[i];
        assert(text[2 * i] == crate::crypto::hex_char(b / 16));
        assert(text[2 * i + 1] == crate::crypto::hex_char(b % 16));
        assert(b / 16 < 16 && b % 16 < 16);
        assert((b / 16) * 16 + b % 16 == b);
    }
    assert(hex_decoded(text) =~= key);
}

/// Keeps the silos of one browser profile: the directory that holds them
/// and the master key their values are sealed under.
pub struct SiloManager {
    base_dir: String,
    master_key: [u8; 32],
}

impl SiloManager {
    /// The directory that holds the silo files.
    pub closed spec fn spec_base_dir(&self) -> Seq<char> {
        self.base_dir@
    }

    /// The master key.
    pub closed spec fn key(&self) -> Seq<u8> {
        self.master_key@
    }

    /// A manager of the silos in `base_dir`, with the given master key.
    pub fn new(base_dir: String, master_key: [u8; 32]) -> (m: Self)
        ensures
            m.spec_base_dir() == base_dir@,
            m.key() == master_key@,
    {
        SiloManager { base_dir, master_key }
    }

    /// Sets up the manager from what the keychain holds. With a stored key
    /// (`Some`), that hex text is the master key; text that is not hex is
    /// an `EncryptionFailed`. With none, a fresh random key is drawn, and
    /// its hex text is handed back to be stored in the keychain.
    pub fn init(base_dir: String, stored: Option<String>) -> (r: Result<
        (SiloManager, Option<String>),
        SiloError,
    >)
        requires
            stored matches Some(pw) ==> (is_hex_text(pw@) ==> pw@.len() == 64),
        ensures
            match stored {
                Some(pw) => match stored_key(pw@) {
                    Some(k) => r matches Ok((m, s)) && m.key() == k && s is None
                        && m.spec_base_dir() == base_dir@,
                    None => r matches Err(e) && e == SiloError::EncryptionFailed,
                },
                None => r matches Ok((m, s)) && m.key().len() == 32 && m.spec_base_dir()
                    == base_dir@ && (s matches Some(t) && t@ == hex_lower(m.key())),
            },
    {
        match stored {
            Some(pw) => {
                match hex_decode(pw.as_str()) {
                    Some(bytes) => {
                        let mut key = [0u8; 32];
                        let mut i: usize = 0;
                        while i < 32
                            invariant
                                0 <= i <= 32,
                                bytes@.len() == 32,
                                forall|j: int| 0 <= j < i ==> key@[j] == bytes@[j],
                            decreases 32 - i,
                        {
                            key[i] = bytes[i];
                            i = i + 1;
                        }
                        assert(key@ == bytes@);
                        Ok((SiloManager::new(base_dir, key), None))
                    },
                    None => Err(SiloError::EncryptionFailed),
                }
            },
            None => {
                let mut key = [0u8; 32];
                fill_random(&mut key);
                let encoded = hex_encode(&key);
                Ok((SiloManager::new(base_dir, key), Some(encoded)))
            },
        }
    }

    /// The directory that holds the silo files.
    pub fn base_dir(&self) -> (d: &String)
        ensures
            d@ == self.spec_base_dir(),
    {
        &self.base_dir
    }

    /// The key of the silo of `registrable_domain`, derived from the master
    /// key.
    fn derive_silo_key(&self, registrable_domain: &str) -> (k: Vec<u8>)
        ensures
            k@ == silo_key(self.key(), registrable_domain@),
            k@.len() == 32,
    {
        match hkdf_sha256_expand(&self.master_key, registrable_domain.as_bytes()) {
            Some(k) => k,
            None => {
                proof {
                    assert(false);
                }
                Vec::new()
            },
        }
    }

    /// Seals `plaintext` for the silo of `registrable_domain` under `nonce`:
    /// the nonce followed by the ciphertext under the silo's key. A
    /// plaintext longer than AES-GCM allows is an `EncryptionFailed`.
    pub fn seal_with_nonce(&self, registrable_domain: &str, nonce: &[u8; 12], plaintext: &[u8]) -> (r:
        Result<Vec<u8>, SiloError>)
        ensures
            plaintext@.len() <= SEAL_MAX ==> (r matches Ok(v) && v@ == sealed(
                silo_key(self.key(), registrable_domain@),
                nonce@,
                plaintext@,
            ) && v@.len() == NONCE_LEN + plaintext@.len() + 16),
            plaintext@.len() > SEAL_MAX ==> (r matches Err(e) && e == SiloError::EncryptionFailed),
    {
        let key = self.derive_silo_key(registrable_domain);
        match aes256_gcm_encrypt(key.as_slice(), nonce, plaintext) {
            Some(ciphertext) => {
                let mut out: Vec<u8> = Vec::new();
                let mut i: usize = 0;
                while i < 12
                    invariant
                        0 <= i <= 12,
                        out@ == nonce@.take(i as int),
                    decreases 12 - i,
                {
                    out.push(nonce[i]);
                    assert(nonce@.take(i + 1) == nonce@.take(i as int).push(nonce@[i as int]));
                    i = i + 1;
                }
                assert(nonce@.take(12) == nonce@);
                let mut j: usize = 0;
                let n = ciphertext.len();
                while j < n
                    invariant
                        0 <= j <= n,
                        n == ciphertext@.len(),
                        out@ == nonce@ + ciphertext@.take(j as int),
                    decreases n - j,
                {
                    out.push(ciphertext[j]);
                    assert(ciphertext@.take(j + 1) == ciphertext@.take(j as int).push(
                        ciphertext@[j as int],
                    ));
                    j = j + 1;
                }
                assert(ciphertext@.take(n as int) == ciphertext@);
                Ok(out)
            },
            None => Err(SiloError::EncryptionFailed),
        }
    }

    /// Seals `plaintext` for the silo of `registrable_domain` under a fresh
    /// random nonce: the value stored is the 12-byte nonce followed by the
    /// ciphertext and its 16-byte tag, so that it can be opened again. A
    /// plaintext longer than AES-GCM allows is an `EncryptionFailed`.
    pub fn encrypt_value(&self, registrable_domain: &str, plaintext: &[u8]) -> (r: Result<
        Vec<u8>,
        SiloError,
    >)
        ensures
            plaintext@.len() <= SEAL_MAX ==> (r matches Ok(v) && v@.len() == NONCE_LEN
                + plaintext@.len() + 16 && v@ == sealed(
                silo_key(self.key(), registrable_domain@),
                v@.take(NONCE_LEN as int),
                plaintext@,
            )),
            plaintext@.len() > SEAL_MAX ==> (r matches Err(e) && e == SiloError::EncryptionFailed),
    {
        let mut nonce = [0u8; 12];
        fill_random(&mut nonce);
        let r = self.seal_with_nonce(registrable_domain, &nonce, plaintext);
        proof {
            if plaintext@.len() <= SEAL_MAX {
                let v = r->Ok_0@;
                assert(v.take(12) == nonce@);
            }
        }
        r
    }

    /// Opens a value stored in the silo of `registrable_domain`: the first
    /// 12 bytes are the nonce, the rest the ciphertext under the silo's
    /// key. Whatever `encrypt_value` sealed for that silo opens to its
    /// plaintext, and a plaintext given back within `SEAL_MAX` is one that
    /// seals to the stored value; a value that does not open is a
    /// `DecryptionFailed`.
    pub fn decrypt_value(&self, registrable_domain: &str, stored: &[u8]) -> (r: Result<
        Vec<u8>,
        SiloError,
    >)
        ensures
            forall|nonce: Seq<u8>, plaintext: Seq<u8>|
                nonce.len() == NONCE_LEN && plaintext.len() <= SEAL_MAX && stored@ == sealed(
                    silo_key(self.key(), registrable_domain@),
                    nonce,
                    plaintext,
                ) ==> (r matches Ok(v) && v@ == plaintext),
            r matches Ok(v) ==> stored@.len() >= NONCE_LEN,
            r matches Ok(v) ==> (v@.len() <= SEAL_MAX ==> stored@ == sealed(
                silo_key(self.key(), registrable_domain@),
                stored@.take(NONCE_LEN as int),
                v@,
            )),
            r matches Err(e) ==> e == SiloError::DecryptionFailed,
    {
        if stored.len() < 12 {
            return Err(SiloError::DecryptionFailed);
        }
        let key = self.derive_silo_key(registrable_domain);
        let nonce = vstd::slice::slice_subrange(stored, 0, 12);
        let body = vstd::slice::slice_subrange(stored, 12, stored.len());
        let ghost k = silo_key(self.key(), registrable_domain@);
        assert(stored@ == nonce@ + body@);
        let r = aes256_gcm_decrypt(key.as_slice(), nonce, body);
        proof {
            assert forall|n: Seq<u8>, p: Seq<u8>|
                n.len() == NONCE_LEN && p.len() <= SEAL_MAX && stored@ == sealed(k, n, p) implies (
                r matches Some(v) && v@ == p) by {
                assert(stored@.take(12) == n);
                assert(nonce@ == n);
                assert(body@ == stored@.skip(12));
                assert(stored@.skip(12) == aes256_gcm_seal(k, n, p));
            }
        }
        match r {
            Some(p) => Ok(p),
            None => Err(SiloError::DecryptionFailed),
        }
    }

    /// The row that stores `cookie` in the silo of `registrable_domain`: the
    /// same fields, the value sealed for that silo as `encrypt_value` seals
    /// it, the flags as 0 or 1.
    pub fn cookie_record(&self, registrable_domain: &str, cookie: &Cookie) -> (r: Result<
        CookieRecord,
        SiloError,
    >)
        ensures
            cookie.value@.len() <= SEAL_MAX ==> (r matches Ok(rec) && rec.host@ == cookie.host@
                && rec.name@ == cookie.name@ && rec.path@ == cookie.path@ && rec.same_site@
                == cookie.same_site@ && rec.expiry_utc == cookie.expiry_utc && rec.secure
                == flag_value(cookie.secure) && rec.http_only == flag_value(cookie.http_only)
                && rec.value@.len() == NONCE_LEN + cookie.value@.len() + 16 && rec.value@
                == sealed(
                silo_key(self.key(), registrable_domain@),
                rec.value@.take(NONCE_LEN as int),
                cookie.value@,
            )),
            cookie.value@.len() > SEAL_MAX ==> (r matches Err(e) && e
                == SiloError::EncryptionFailed),
    {
        let value = self.encrypt_value(registrable_domain, cookie.value.as_slice())?;
        Ok(
            CookieRecord {
                host: cookie.host.clone(),
                name: cookie.name.clone(),
                value,
                path: cookie.path.clone(),
                secure: if cookie.secure {
                    1
                } else {
                    0
                },
                http_only: if cookie.http_only {
                    1
                } else {
                    0
                },
                same_site: cookie.same_site.clone(),
                expiry_utc: cookie.expiry_utc,
            },
        )
    }
}

/// The index of the last `.` in `s`, or -1 when there is none.
pub open spec fn last_dot(s: Seq<char>) -> int
    decreases s.len(),
{
    if s.len() == 0 {
        -1
    } else if s.last() == '.' {
        s.len() - 1
    } else {
        last_dot(s.drop_last())
    }
}

/// The extension of a file name, as `Path::extension` gives it: the part
/// after the last `.`, except for `..`, a name with no `.`, and a name whose
/// only `.` is its first character.
pub open spec fn extension(name: Seq<char>) -> Option<Seq<char>> {
    if name == ".."@ || last_dot(name) <= 0 {
        None
    } else {
        Some(name.skip(last_dot(name) + 1))
    }
}

proof fn last_dot_bounds(s: Seq<char>)
    ensures
        -1 <= last_dot(s) < s.len(),
        last_dot(s) >= 0 ==> s[last_dot(s)] == '.',
        forall|k: int| last_dot(s) < k < s.len() ==> s[k] != '.',
    decreases s.len(),
{
    if s.len() > 0 && s.last() != '.' {
        last_dot_bounds(s.drop_last());
        assert forall|k: int| last_dot(s) < k < s.len() implies s[k] != '.' by {
            if k < s.len() - 1 {
                assert(s.drop_last()[k] == s[k]);
            }
        }
    }
}

/// Whether a directory entry is a silo database: its extension is `db`.
pub fn is_silo_file(file_name: &str) -> (b: bool)
    ensures
        b == (extension(file_name@) == Some("db"@)),
{
    proof {
        reveal_strlit("db");
        reveal_strlit("..");
    }
    let cs = chars_of(file_name);
    let n = cs.len();
    let mut i = n;
    assert(cs@.take(n as int) == cs@);
    while i > 0 && cs[i - 1] != '.'
        invariant
            i <= n == cs@.len(),
            last_dot(cs@) == last_dot(cs@.take(i as int)),
        decreases i,
    {
        assert(cs@.take(i as int).drop_last() == cs@.take(i - 1));
        i = i - 1;
    }
    proof {
        assert(cs@.take(n as int) == cs@);
        if i > 0 {
            assert(cs@.take(i as int).last() == '.');
        }
        last_dot_bounds(cs@);
    }
    // `i - 1` is now the last dot, if any
    if i <= 1 {
        return false;
    }
    assert(last_dot(cs@) == i - 1);
    let b = n - i == 2 && cs[i] == 'd' && cs[i + 1] == 'b';
    proof {
        if cs@ == ".."@ {
            assert(n == 2 && i == 2);
        } else {
            if b {
                assert(cs@.skip(i as int) =~= "db"@);
            }
            if cs@.skip(i as int) == "db"@ {
                assert("db"@.len() == 2);
                assert(cs@.skip(i as int).len() == n - i);
                assert(cs@.skip(i as int)[0] == cs@[i as int]);
                assert(cs@.skip(i as int)[1] == cs@[i + 1]);
            }
        }
    }
    b
}

/// Whether a silo is cleared at the end of a session, from the text of its
/// `pinned` entry (`None` where there is none or it cannot be read): only a
/// silo whose entry says something other than `0` is kept.
pub open spec fn purged(pinned: Option<Seq<char>>) -> bool {
    match pinned {
        Some(t) => t == "0"@,
        None => true,
    }
}

/// Whether the silo whose `pinned` entry reads `pinned` (`None` where there
/// is none or it cannot be read) is deleted when the session closes.
pub fn should_purge(pinned: Option<&str>) -> (b: bool)
    ensures
        b == purged(match pinned {
            Some(t) => Some(t@),
            None => None,
        }),
{
    match pinned {
        Some(t) => str_equal(t, "0"),
        None => true,
    }
}

} // verus!
