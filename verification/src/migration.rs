//! Bringing over the credentials of the desk's predecessor, and the key the
//! credential store is sealed with.

use vstd::prelude::*;
use vstd::string::StringSliceAdditionalSpecFns;
use crate::crypto::{pbkdf2_sha256_32, pbkdf2_hmac_sha256_32, aes256gcm_decrypt, aes256gcm_open};
use crate::text::{owned, trim_str, trim, split_str, split_on};

verus! {

/// The salt of the predecessor's credential key.
pub open spec fn legacy_salt() -> Seq<u8> {
    "FennelTraderCredentialsSalt2025".spec_bytes()
}

/// The salt of the credential store's key.
pub open spec fn store_salt() -> Seq<u8> {
    "MultiTradeCredentialsSalt2025".spec_bytes()
}

/// PBKDF2 rounds used for both keys.
pub open spec fn key_rounds() -> u32 {
    100_000
}

/// Whether the predecessor's credential file is present: `found` is `None`
/// when its location cannot be determined (it is only known on Windows),
/// else whether a file is there.
pub fn check_legacy_credentials(found: Option<bool>) -> (r: bool)
    ensures
        r == (found == Some(true)),
{
    match found {
        Some(b) => b,
        None => false,
    }
}

/// The key that seals the predecessor's credentials, derived from the
/// machine identifier.
pub fn derive_key(identifier: &str) -> (key: [u8; 32])
    ensures
        key@ == pbkdf2_hmac_sha256_32(identifier.spec_bytes(), legacy_salt(), key_rounds()),
{
    pbkdf2_sha256_32(identifier.as_bytes(), "FennelTraderCredentialsSalt2025".as_bytes(), 100_000)
}

/// The key that seals the credential store, derived from the store
/// identifier.
pub fn derive_store_key(identifier: &str) -> (key: [u8; 32])
    ensures
        key@ == pbkdf2_hmac_sha256_32(identifier.spec_bytes(), store_salt(), key_rounds()),
{
    pbkdf2_sha256_32(identifier.as_bytes(), "MultiTradeCredentialsSalt2025".as_bytes(), 100_000)
}

/// The outcome of opening the predecessor's sealed file: its first 12 bytes
/// are the nonce, the rest the ciphertext.
pub open spec fn legacy_plaintext(data: Seq<u8>, key: Seq<u8>) -> Result<Seq<u8>, Seq<char>> {
    if data.len() < 12 {
        Err("Ciphertext too short"@)
    } else {
        match aes256gcm_open(key, data.take(12), data.skip(12)) {
            Some(p) => Ok(p),
            None => Err("Failed to decrypt: "@ + "aead::Error"@),
        }
    }
}

/// Opens the predecessor's sealed credential file with `key`.
pub fn decrypt_legacy(data: &[u8], key: &[u8; 32]) -> (r: Result<Vec<u8>, String>)
    ensures
        match legacy_plaintext(data@, key@) {
            Ok(p) => r matches Ok(v) && v@ == p,
            Err(m) => r matches Err(e) && e@ == m,
        },
{
    if data.len() < 12 {
        return Err(owned("Ciphertext too short"));
    }
    let (nonce, ciphertext) = data.split_at(12);
    assert(nonce@ == data@.take(12));
    assert(ciphertext@ == data@.skip(12));
    match aes256gcm_decrypt(key, nonce, ciphertext) {
        Ok(p) => Ok(p),
        Err(e) => {
            let mut m = owned("Failed to decrypt: ");
            m.append(e.as_str());
            Err(m)
        },
    }
}

/// Opens the predecessor's sealed credential file with the key derived from
/// the machine identifier.
pub fn decrypt_legacy_credentials(data: &[u8], identifier: &str) -> (r: Result<Vec<u8>, String>)
    ensures
        match legacy_plaintext(
            data@,
            pbkdf2_hmac_sha256_32(identifier.spec_bytes(), legacy_salt(), key_rounds()),
        ) {
            Ok(p) => r matches Ok(v) && v@ == p,
            Err(m) => r matches Err(e) && e@ == m,
        },
{
    let key = derive_key(identifier);
    decrypt_legacy(data, &key)
}

/// `s` without leading and trailing `"` characters.
pub open spec fn trim_quotes(s: Seq<char>) -> Seq<char>
    decreases s.len(),
{
    if s.len() > 0 && s[0] == '"' {
        trim_quotes(s.drop_first())
    } else if s.len() > 0 && s.last() == '"' {
        trim_quotes(s.drop_last())
    } else {
        s
    }
}

proof fn lemma_trim_quotes_at(s: Seq<char>, i: int, j: int)
    requires
        0 <= i <= j <= s.len(),
        forall|k: int| 0 <= k < i ==> #[trigger] s[k] == '"',
        forall|k: int| j <= k < s.len() ==> #[trigger] s[k] == '"',
        i == j || (s[i] != '"' && s[j - 1] != '"'),
    ensures
        trim_quotes(s) == s.subrange(i, j),
    decreases s.len(),
{
    if s.len() > 0 && s[0] == '"' {
        if i == 0 {
            // then i == j == 0 is impossible unless s is all quotes; here j may be 0
            assert(i == j);
            let t = s.drop_first();
            assert forall|k: int| 0 <= k < t.len() implies #[trigger] t[k] == '"' by {
                assert(t[k] == s[k + 1]);
            }
            lemma_trim_quotes_at(t, 0, 0);
            assert(t.subrange(0, 0) =~= s.subrange(0, 0));
        } else {
            let t = s.drop_first();
            assert forall|k: int| 0 <= k < i - 1 implies #[trigger] t[k] == '"' by {
                assert(t[k] == s[k + 1]);
            }
            assert forall|k: int| j - 1 <= k < t.len() implies #[trigger] t[k] == '"' by {
                assert(t[k] == s[k + 1]);
            }
            if i != j {
                assert(t[i - 1] == s[i]);
                assert(t[j - 2] == s[j - 1]);
            }
            lemma_trim_quotes_at(t, i - 1, j - 1);
            assert(t.subrange(i - 1, j - 1) =~= s.subrange(i, j));
        }
    } else if s.len() > 0 && s.last() == '"' {
        let t = s.drop_last();
        if j == s.len() {
            assert(i == j);
            assert forall|k: int| 0 <= k < t.len() implies #[trigger] t[k] == '"' by {
                if k >= i {
                    assert(false);
                }
                assert(t[k] == s[k]);
            }
            lemma_trim_quotes_at(t, t.len() as int, t.len() as int);
            assert(t.subrange(t.len() as int, t.len() as int) =~= s.subrange(i, j));
        } else {
            assert forall|k: int| 0 <= k < i implies #[trigger] t[k] == '"' by {
                assert(t[k] == s[k]);
            }
            assert forall|k: int| j <= k < t.len() implies #[trigger] t[k] == '"' by {
                assert(t[k] == s[k]);
            }
            if i != j {
                assert(t[i] == s[i]);
                assert(t[j - 1] == s[j - 1]);
            }
            lemma_trim_quotes_at(t, i, j);
            assert(t.subrange(i, j) =~= s.subrange(i, j));
        }
    } else {
        if i > 0 {
            assert(s[0] == '"');
        }
        if j < s.len() {
            assert(s[s.len() - 1] == '"');
        }
        assert(s.subrange(i, j) =~= s);
    }
}

/// `s` without leading and trailing `"` characters, as `trim_matches('"')`.
pub fn trim_quotes_str(s: &str) -> (r: String)
    ensures
        r@ == trim_quotes(s@),
{
    let v = crate::text::chars_of(s);
    let n = v.len();
    let mut i: usize = 0;
    while i < n && v[i] == '"'
        invariant
            n == v.len(),
            i <= n,
            forall|k: int| 0 <= k < i ==> #[trigger] v@[k] == '"',
        decreases n - i,
    {
        i = i + 1;
    }
    let mut j: usize = n;
    while j > i && v[j - 1] == '"'
        invariant
            n == v.len(),
            i <= j <= n,
            forall|k: int| j <= k < n ==> #[trigger] v@[k] == '"',
        decreases j,
    {
        j = j - 1;
    }
    proof {
        if i < j {
            assert(v@[i as int] != '"');
        }
        lemma_trim_quotes_at(v@, i as int, j as int);
    }
    crate::text::string_from_range(&v, i, j)
}

/// The machine identifier the predecessor sealed its credentials with:
/// host name, then `DOMAIN\user`, then the account SID, with nothing
/// between. `whoami` is the output of `whoami /user /fo csv /nh`, whose
/// second comma-separated field is the quoted SID.
pub open spec fn machine_identifier_spec(
    hostname: Seq<char>,
    domain: Seq<char>,
    user: Seq<char>,
    whoami: Seq<char>,
) -> Result<Seq<char>, Seq<char>> {
    let line = trim(whoami);
    let parts = split_on(line, ',');
    if parts.len() < 2 {
        Err("Unexpected whoami output: "@ + line)
    } else {
        Ok(trim(hostname) + domain + "\\"@ + user + trim_quotes(parts[1]))
    }
}

/// Builds the predecessor's machine identifier from the outputs of
/// `hostname` and `whoami` and the domain and user names.
pub fn machine_identifier(hostname: &str, domain: &str, user: &str, whoami: &str) -> (r: Result<
    String,
    String,
>)
    ensures
        match machine_identifier_spec(hostname@, domain@, user@, whoami@) {
            Ok(s) => r matches Ok(t) && t@ == s,
            Err(s) => r matches Err(t) && t@ == s,
        },
{
    let line = trim_str(whoami);
    let parts = split_str(line.as_str(), ',');
    assert(parts@.len() == split_on(line@, ',').len());
    if parts.len() < 2 {
        let mut m = owned("Unexpected whoami output: ");
        m.append(line.as_str());
        return Err(m);
    }
    assert(parts@[1]@ == split_on(line@, ',')[1]);
    let uid = trim_quotes_str(parts[1].as_str());
    let mut id = trim_str(hostname);
    id.append(domain);
    id.append("\\");
    id.append(user);
    id.append(uid.as_str());
    Ok(id)
}

/// The identifier the credential store key is derived from: the computer
/// name then the user name, each replaced by a default when unknown.
pub fn store_identifier(computer_name: Option<&str>, user_name: Option<&str>) -> (r: String)
    ensures
        r@ == (match computer_name {
            Some(c) => c@,
            None => "default-host"@,
        }) + (match user_name {
            Some(u) => u@,
            None => "default-user"@,
        }),
{
    let mut r = match computer_name {
        Some(c) => owned(c),
        None => owned("default-host"),
    };
    match user_name {
        Some(u) => r.append(u),
        None => r.append("default-user"),
    }
    r
}

} // verus!
