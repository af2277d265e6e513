//! Users and their passwords (stored as Argon2 PHC strings).
use vstd::prelude::*;
use vstd::string::*;
use crate::models::meta::TABLES_REVISION;
use crate::decimal::{all_digits, digit_value, digits_value, is_digit, nat_digits};
use crate::encoding::base64_std_no_pad;

verus! {

/// A user account.
pub struct User {
    /// Never handed out again once the user is deleted.
    pub user_id: i64,
    pub username: String,
    /// The Argon2 PHC string of the password.
    pub password: String,
    pub last_login: i64,
}

/// What checking `password` against the PHC string `hash` with Argon2
/// answers: `None` when `hash` is not a PHC string, else whether it matches.
pub uninterp spec fn argon2_verdict(hash: Seq<char>, password: Seq<u8>) -> Option<bool>;

/// The (name, value) parameters of a PHC string, in order, or `None` when
/// the string is not a PHC string.
pub uninterp spec fn phc_params(hash: Seq<char>) -> Option<Seq<(Seq<char>, Seq<char>)>>;

/// The texts of a list of (name, value) string pairs.
pub open spec fn pairs_view(v: Seq<(String, String)>) -> Seq<(Seq<char>, Seq<char>)> {
    v.map_values(|p: (String, String)| (p.0@, p.1@))
}

/// The value of the last parameter named `name`, if any: the one Argon2
/// uses, as it reads the parameters in order and each overrides the last.
pub open spec fn last_param(params: Seq<(Seq<char>, Seq<char>)>, name: Seq<char>) -> Option<Seq<char>>
    decreases params.len(),
{
    if params.len() == 0 {
        None
    } else if params.last().0 == name {
        Some(params.last().1)
    } else {
        last_param(params.drop_last(), name)
    }
}

/// The largest lane count Argon2 accepts.
pub open spec fn argon2_max_lanes() -> int {
    0xFF_FFFF
}

/// Whether the lane count (`p`) that Argon2 reads from these parameters is a
/// decimal number above what it accepts.
pub open spec fn lanes_too_many(params: Seq<(Seq<char>, Seq<char>)>) -> bool {
    match last_param(params, "p"@) {
        Some(v) => all_digits(v) && digits_value(v) > argon2_max_lanes(),
        None => false,
    }
}

/// The parameters of a PHC string: `argon2::PasswordHash::new`, then its
/// `params` walked in order with each name and value taken as text.
/// Claimed, from the password-hash and argon2 sources: the list depends on
/// the string alone, and is `None` exactly when the string does not parse,
/// which is when checking a password against it answers `None`. Argon2 reads
/// its lane count from the last `p` parameter (`Params::try_from`) and
/// refuses a count above 2^24 - 1 (`Params::new`), so a string whose last
/// `p` is a decimal number above that matches no password. (For a count of
/// 2^29 or more, `Params::new` multiplies it by 8 unchecked first, which
/// panics where overflow is checked; `argon2_check` leaves such strings out.)
#[verifier::external_body]
fn phc_param_list(hash: &str) -> (res: Option<Vec<(String, String)>>)
    ensures
        match res {
            Some(v) => phc_params(hash@) == Some(pairs_view(v@)),
            None => phc_params(hash@) is None,
        },
        forall|password: Seq<u8>| (#[trigger] argon2_verdict(hash@, password) is None) <==> res is None,
        res matches Some(v) && lanes_too_many(pairs_view(v@)) ==> forall|password: Seq<u8>|
            #[trigger] argon2_verdict(hash@, password) == Some(false),
{
    let parsed = argon2::PasswordHash::new(hash).ok()?;
    Some(parsed.params.iter().map(|(name, value)| (name.as_str().to_string(), value.as_str().to_string())).collect())
}

/// Checks a password against a PHC string: `argon2::PasswordHash::new`,
/// then `Argon2::default().verify_password`. Claimed: the answer depends on
/// the two arguments alone (`None` when the string does not parse). Strings
/// whose lane count is a decimal number above what Argon2 accepts are left
/// out: for some of them the check panics.
#[verifier::external_body]
fn argon2_check(hash: &str, password: &[u8]) -> (res: Option<bool>)
    requires
        phc_params(hash@) matches Some(ps) ==> !lanes_too_many(ps),
    ensures
        res == argon2_verdict(hash@, password@),
{
    let parsed = argon2::PasswordHash::new(hash).ok()?;
    Some(argon2::PasswordVerifier::verify_password(&argon2::Argon2::default(), password, &parsed).is_ok())
}

/// Whether `v` is a string of decimal digits whose value is above the
/// largest lane count Argon2 accepts.
fn digits_above_lane_limit(v: &str) -> (res: bool)
    ensures
        res == (all_digits(v@) && digits_value(v@) > argon2_max_lanes()),
{
    let cs = crate::text::chars_of(v);
    let mut acc: u64 = 0;
    let mut i: usize = 0;
    assert(cs@.take(0) =~= Seq::<char>::empty());
    while i < cs.len()
        invariant
            0 <= i <= cs@.len(),
            cs@ == v@,
            all_digits(cs@.take(i as int)),
            digits_value(cs@.take(i as int)) <= 0xFF_FFFF ==> acc == digits_value(cs@.take(i as int)),
            digits_value(cs@.take(i as int)) > 0xFF_FFFF ==> acc > 0xFF_FFFF,
            acc <= 0xFF_FFFF * 10 + 9,
        decreases cs.len() - i,
    {
        let c = cs[i];
        if !('0' <= c && c <= '9') {
            assert(!is_digit(v@[i as int]));
            return false;
        }
        let d: u64 = (c as u32 - '0' as u32) as u64;
        assert(digit_value(c) == d);
        let ghost pre = cs@.take(i as int);
        assert(cs@.take(i + 1).drop_last() =~= pre);
        assert(cs@.take(i + 1).last() == c);
        proof {
            crate::decimal::lemma_digits_value_nonneg(pre);
        }
        assert(all_digits(cs@.take(i + 1))) by {
            assert forall|j: int| 0 <= j < i + 1 implies is_digit(#[trigger] cs@.take(i + 1)[j]) by {
                if j < i {
                    assert(cs@.take(i + 1)[j] == pre[j]);
                }
            }
        }
        if acc <= 0xFF_FFFF {
            acc = acc * 10 + d;
        }
        i = i + 1;
    }
    assert(cs@.take(cs@.len() as int) =~= cs@);
    acc > 0xFF_FFFF
}

/// Whether the lane count Argon2 reads from these parameters is a decimal
/// number above what it accepts.
fn lanes_refused(params: &Vec<(String, String)>) -> (res: bool)
    ensures
        res == lanes_too_many(pairs_view(params@)),
{
    let ghost ps = pairs_view(params@);
    let mut i = params.len();
    assert(ps.subrange(0, i as int) =~= ps);
    while i > 0
        invariant
            i <= params@.len(),
            ps == pairs_view(params@),
            last_param(ps, "p"@) == last_param(ps.subrange(0, i as int), "p"@),
        decreases i,
    {
        assert(ps.subrange(0, i as int).drop_last() =~= ps.subrange(0, i - 1));
        assert(ps.subrange(0, i as int).last() == ps[i - 1]);
        assert(ps[i - 1] == (params@[i - 1].0@, params@[i - 1].1@));
        if crate::text::str_eq(params[i - 1].0.as_str(), "p") {
            return digits_above_lane_limit(params[i - 1].1.as_str());
        }
        i = i - 1;
    }
    assert(ps.subrange(0, 0) =~= Seq::<(Seq<char>, Seq<char>)>::empty());
    false
}

/// 16 random bytes for a salt: `rand::random::<[u8; 16]>()`. Nothing is
/// claimed of their values.
#[verifier::external_body]
fn random_salt() -> [u8; 16] {
    rand::random::<[u8; 16]>()
}

/// Whether Argon2 accepts these memory, iteration and lane costs
/// (`argon2::Params::new`): at least 8 KiB per lane, at least one
/// iteration, and between 1 and 2^24 - 1 lanes.
pub open spec fn argon2_params_valid(m_cost: u32, t_cost: u32, p_cost: u32) -> bool {
    &&& 1 <= p_cost <= 0xFF_FFFF
    &&& 8 * p_cost <= m_cost
    &&& 1 <= t_cost
}

/// The longest password Argon2 hashes, in bytes.
pub open spec fn argon2_max_password_len() -> nat {
    0xFFFF_FFFF
}

/// The start of the PHC string of an Argon2id (version 0x13) hash made with
/// these costs and this salt: algorithm, version, parameters in decimal and
/// the salt in unpadded standard Base64, each after a `$`, then the `$` before
/// the hash output.
pub open spec fn argon2id_phc_head(m_cost: u32, t_cost: u32, p_cost: u32, salt: Seq<u8>) -> Seq<char> {
    "$argon2id$v=19$m="@ + nat_digits(m_cost as nat) + ",t="@ + nat_digits(t_cost as nat) + ",p="@ + nat_digits(
        p_cost as nat,
    ) + "$"@ + base64_std_no_pad(salt) + "$"@
}

/// Hashes a password with Argon2id (version 0x13) under the given memory,
/// iteration and lane costs and the given salt bytes:
/// `SaltString::encode_b64`, `Params::new`, `Argon2::new`, `hash_password`,
/// rendered with `to_string`. Claimed, from the crates' source: for a salt of
/// 8 to 48 bytes (a shorter one is refused or makes the salt conversion
/// panic, a longer one does not fit a salt string) and lane counts whose
/// eightfold fits a `u32` (`Params::new` multiplies it unchecked), hashing
/// succeeds exactly when the costs are valid and the password is at most
/// 2^32 - 1 bytes long. The string returned is the PHC form that the
/// password-hash crate writes (`PasswordHash`'s `Display`, argon2's
/// `ParamsString`): `argon2id_phc_head` of the costs and salt followed by the
/// unpadded standard Base64 of a 32-byte output (the default length); and it
/// verifies against the same password. Which 32 bytes the output holds is
/// not described.
#[verifier::external_body]
fn argon2id_hash(password: &[u8], salt: &[u8], m_cost: u32, t_cost: u32, p_cost: u32) -> (res: Result<String, String>)
    requires
        8 <= salt@.len() <= 48,
        8 * p_cost <= u32::MAX,
    ensures
        res is Ok <==> (argon2_params_valid(m_cost, t_cost, p_cost) && password@.len() <= argon2_max_password_len()),
        res matches Ok(h) ==> argon2_verdict(h@, password@) == Some(true),
        res matches Ok(h) ==> exists|out: Seq<u8>|
            out.len() == 32 && h@ == argon2id_phc_head(m_cost, t_cost, p_cost, salt@) + base64_std_no_pad(out),
{
    let salt = argon2::password_hash::SaltString::encode_b64(salt).map_err(|e| e.to_string())?;
    let params = argon2::Params::new(m_cost, t_cost, p_cost, None).map_err(|e| e.to_string())?;
    let hasher = argon2::Argon2::new(argon2::Algorithm::Argon2id, argon2::Version::V0x13, params);
    argon2::PasswordHasher::hash_password(&hasher, password, &salt).map(|h| h.to_string()).map_err(|e| e.to_string())
}

/// Argon2 memory cost of stored password hashes, in KiB (256 MiB).
pub const HASH_MEMORY_KIB: u32 = 262144;

/// Argon2 iterations of stored password hashes.
pub const HASH_ITERATIONS: u32 = 2;

/// Argon2 lanes of stored password hashes.
pub const HASH_LANES: u32 = 16;

/// Hashes a new password with Argon2id and a fresh random 16-byte salt,
/// under 256 MiB of memory, 2 iterations and 16 lanes. Hashing succeeds
/// unless the password is longer than Argon2 accepts; a hash that is
/// returned is the PHC string `$argon2id$v=19$m=262144,t=2,p=16$<salt>$<output>`
/// and verifies against the password.
pub fn password_hash(new_password: &str) -> (res: Result<String, String>)
    ensures
        res is Ok <==> new_password.spec_bytes().len() <= argon2_max_password_len(),
        res matches Ok(h) ==> argon2_verdict(h@, new_password.spec_bytes()) == Some(true),
        res matches Ok(h) ==> exists|salt: Seq<u8>, out: Seq<u8>|
            salt.len() == 16 && out.len() == 32 && h@ == "$argon2id$v=19$m=262144,t=2,p=16$"@ + base64_std_no_pad(
                salt,
            ) + "$"@ + base64_std_no_pad(out),
{
    let salt = random_salt();
    let res = argon2id_hash(new_password.as_bytes(), salt.as_slice(), HASH_MEMORY_KIB, HASH_ITERATIONS, HASH_LANES);
    proof {
        lemma_stored_hash_head(salt@);
    }
    res
}

/// The head of a stored password hash, written out.
proof fn lemma_stored_hash_head(salt: Seq<u8>)
    ensures
        argon2id_phc_head(HASH_MEMORY_KIB, HASH_ITERATIONS, HASH_LANES, salt) == "$argon2id$v=19$m=262144,t=2,p=16$"@
            + base64_std_no_pad(salt) + "$"@,
{
    reveal_strlit("$argon2id$v=19$m=");
    reveal_strlit(",t=");
    reveal_strlit(",p=");
    reveal_strlit("$");
    reveal_strlit("$argon2id$v=19$m=262144,t=2,p=16$");
    reveal_with_fuel(nat_digits, 7);
    assert(nat_digits(2) =~= seq!['2']);
    assert(nat_digits(16) =~= seq!['1', '6']);
    assert(nat_digits(26) =~= seq!['2', '6']);
    assert(nat_digits(262) =~= seq!['2', '6', '2']);
    assert(nat_digits(2621) =~= seq!['2', '6', '2', '1']);
    assert(nat_digits(26214) =~= seq!['2', '6', '2', '1', '4']);
    assert(nat_digits(262144) =~= seq!['2', '6', '2', '1', '4', '4']);
    assert(argon2id_phc_head(HASH_MEMORY_KIB, HASH_ITERATIONS, HASH_LANES, salt) =~= "$argon2id$v=19$m=262144,t=2,p=16$"@
        + base64_std_no_pad(salt) + "$"@);
}

impl User {
    /// Whether `password` is this user's: `None` exactly when the stored
    /// hash is not a PHC string.
    pub fn verify(&self, password: &str) -> (res: Option<bool>)
        ensures
            res == argon2_verdict(self.password@, password.spec_bytes()),
            res is None <==> phc_params(self.password@) is None,
    {
        let params = phc_param_list(self.password.as_str());
        proof {
            assert(argon2_verdict(self.password@, password.spec_bytes()) is None <==> params is None);
        }
        match params {
            None => None,
            Some(ps) => {
                if lanes_refused(&ps) {
                    assert(argon2_verdict(self.password@, password.spec_bytes()) == Some(false));
                    Some(false)
                } else {
                    argon2_check(self.password.as_str(), password.as_bytes())
                }
            },
        }
    }
}

/// Whether a login (or a deletion) with `password` is allowed for the user
/// found (if any): only a found user whose hash matches.
pub fn password_accepted(user: Option<&User>, password: &str) -> (res: bool)
    ensures
        res == (match user {
            Some(u) => argon2_verdict(u.password@, password.spec_bytes()) == Some(true),
            None => false,
        }),
{
    match user {
        Some(u) => match u.verify(password) {
            Some(ok) => ok,
            None => false,
        },
        None => false,
    }
}

/// The (offset, count) of the page of users at positions `start..end` of
/// the listing (most recent login first).
pub fn user_page(start: i64, end: i64) -> (res: (i64, i64))
    requires
        start < end,
        end - start <= i64::MAX,
    ensures
        res == (start, (end - start) as i64),
{
    (start, end - start)
}


/// The statement that creates the `users` table.
pub open spec fn users_table_sql() -> Seq<char> {
    "\n\tcreate table users\n\t(\n\t\tuser_id BIGSERIAL UNIQUE,\n\t\tusername TEXT NOT NULL UNIQUE,\n\t\tpassword TEXT NOT NULL,\n\t\tlast_login BIGINT NOT NULL\n\t);\n\t"@
}

/// The statements that set up the `users` table of a database at revision
/// `revision`: the table is created only for a database at or before
/// `TABLES_REVISION`.
pub fn migrate(revision: i64) -> (res: Vec<&'static str>)
    ensures
        revision <= TABLES_REVISION ==> res@.len() == 1 && res@[0]@ == users_table_sql(),
        revision > TABLES_REVISION ==> res@.len() == 0,
{
    let mut res: Vec<&'static str> = Vec::new();
    if crate::models::meta::needs_tables(revision) {
        res.push("\n\tcreate table users\n\t(\n\t\tuser_id BIGSERIAL UNIQUE,\n\t\tusername TEXT NOT NULL UNIQUE,\n\t\tpassword TEXT NOT NULL,\n\t\tlast_login BIGINT NOT NULL\n\t);\n\t");
    }
    res
}

} // verus!
