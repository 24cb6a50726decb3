//! Profiles and their tokens, as kept in `~/.slack-cli/config.json`.
//!
//! The manager works on the store in memory; reading the file before an operation and
//! writing it afterwards (or removing it) is left to the caller, which learns from
//! [`ProfileConfigManager::pending`] what the operation asks for.

use vstd::prelude::*;
use crate::crypto::{
    current_format, decrypt_outcome, encrypted_format, is_current_format, is_encrypted, CryptoOptions, DecryptFailure, TokenCryptoService, ERR_DECRYPT, ERR_ENCRYPT, ERR_INVALID_ENCRYPTED,
};
use crate::error::SlackCliError;
use crate::strings::{chars_of, string_from_chars, trim, trimmed};

verus! {

broadcast use vstd::string::group_string_axioms;

pub const DEFAULT_PROFILE_NAME: &'static str = "default";
pub const CONFIG_DIR_NAME: &'static str = ".slack-cli";
pub const CONFIG_FILE_NAME: &'static str = "config.json";
pub const ERR_INVALID_CONFIG_FORMAT: &'static str = "Invalid config file format";
pub const ERR_NO_HOME: &'static str = "Cannot determine home directory";
pub const TOKEN_MASK_LENGTH: usize = 4;
pub const TOKEN_MIN_LENGTH: usize = 9;

/// One profile as stored: the encrypted token and when it was set.
pub struct StoredProfile {
    pub token: String,
    pub updated_at: String,
}

/// `indexmap::IndexMap`: a hash map that keeps its entries in insertion order.
#[verifier::external_type_specification]
#[verifier::external_body]
#[verifier::reject_recursive_types(K)]
#[verifier::reject_recursive_types(V)]
#[verifier::reject_recursive_types(S)]
pub struct ExIndexMap<K, V, S>(indexmap::IndexMap<K, V, S>);

/// The whole configuration: profiles in insertion order, and the default profile.
pub struct ConfigStore {
    pub profiles: indexmap::IndexMap<String, StoredProfile>,
    pub default_profile: Option<String>,
}

/// A profile as (name, stored token, updated at).
pub type ProfileView = (Seq<char>, Seq<char>, Seq<char>);

/// The entries of a profile map in their order, each as (name, stored token, updated at).
pub uninterp spec fn profile_entries(m: indexmap::IndexMap<String, StoredProfile>) -> Seq<(Seq<char>, Seq<char>, Seq<char>)>;

/// `IndexMap::new()`: a map without entries.
#[verifier::external_body]
fn profile_map_new() -> (r: indexmap::IndexMap<String, StoredProfile>)
    ensures
        profile_entries(r).len() == 0,
{
    indexmap::IndexMap::new()
}

/// `IndexMap::len`: the number of entries.
#[verifier::external_body]
fn profile_map_len(m: &indexmap::IndexMap<String, StoredProfile>) -> (r: usize)
    ensures
        r == profile_entries(*m).len(),
{
    m.len()
}

/// `IndexMap::get_index_of(name)`: the position of the entry whose key is `name`, if any.
#[verifier::external_body]
fn profile_map_index_of(m: &indexmap::IndexMap<String, StoredProfile>, name: &str) -> (r: Option<usize>)
    ensures
        r matches Some(i) ==> i < profile_entries(*m).len() && profile_entries(*m)[i as int].0 == name@,
        r is None ==> forall|k: int| 0 <= k < profile_entries(*m).len() ==> (#[trigger] profile_entries(*m)[k]).0 != name@,
{
    m.get_index_of(name)
}

/// `IndexMap::get_index(i)`: the key and value of the entry at position `i`.
#[verifier::external_body]
fn profile_map_entry(m: &indexmap::IndexMap<String, StoredProfile>, i: usize) -> (r: (&String, &StoredProfile))
    requires
        i < profile_entries(*m).len(),
    ensures
        (r.0@, r.1.token@, r.1.updated_at@) == profile_entries(*m)[i as int],
{
    m.get_index(i).unwrap()
}

/// `IndexMap::insert_full(name, profile)`: an entry whose key is `name` keeps its place
/// and takes the new value; otherwise the entry is added at the end. Returns its position.
#[verifier::external_body]
fn profile_map_insert(m: &mut indexmap::IndexMap<String, StoredProfile>, name: String, profile: StoredProfile) -> (r: usize)
    ensures
        ({
            let before = profile_entries(*old(m));
            let v = (name@, profile.token@, profile.updated_at@);
            &&& (exists|k: int| 0 <= k < before.len() && (#[trigger] before[k]).0 == name@) ==> (
                r < before.len() && before[r as int].0 == name@ && profile_entries(*final(m)) == before.update(r as int, v))
            &&& !(exists|k: int| 0 <= k < before.len() && (#[trigger] before[k]).0 == name@) ==> (
                r == before.len() && profile_entries(*final(m)) == before.push(v))
        }),
{
    m.insert_full(name, profile).0
}

/// `IndexMap::shift_remove_index(i)`: removes the entry at position `i`; the entries
/// after it move up by one.
#[verifier::external_body]
fn profile_map_remove_at(m: &mut indexmap::IndexMap<String, StoredProfile>, i: usize)
    requires
        i < profile_entries(*old(m)).len(),
    ensures
        profile_entries(*final(m)) == profile_entries(*old(m)).remove(i as int),
{
    m.shift_remove_index(i);
}

/// Position of the profile called `name`.
pub open spec fn profile_index(ps: Seq<ProfileView>, name: Seq<char>) -> Option<int>
    decreases ps.len(),
{
    if ps.len() == 0 {
        None
    } else if ps.last().0 == name {
        Some(ps.len() - 1)
    } else {
        profile_index(ps.drop_last(), name)
    }
}

/// No two profiles share a name.
pub open spec fn distinct_names(ps: Seq<ProfileView>) -> bool {
    forall|i: int, j: int| 0 <= i < ps.len() && 0 <= j < ps.len() && i != j ==> #[trigger] ps[i].0 != #[trigger] ps[j].0
}

/// Setting a profile: replaced in place when it exists, appended otherwise.
pub open spec fn insert_profile(ps: Seq<ProfileView>, p: ProfileView) -> Seq<ProfileView> {
    match profile_index(ps, p.0) {
        Some(i) => ps.update(i, p),
        None => ps.push(p),
    }
}

/// Removing a profile, keeping the order of the others.
pub open spec fn remove_profile(ps: Seq<ProfileView>, name: Seq<char>) -> Seq<ProfileView> {
    match profile_index(ps, name) {
        Some(i) => ps.remove(i),
        None => ps,
    }
}

/// Which profile an operation addresses: the argument when non-empty, else the
/// default profile, else `default`.
pub open spec fn resolved_name(default_profile: Option<Seq<char>>, profile: Option<Seq<char>>) -> Seq<char> {
    match profile {
        Some(p) if p.len() > 0 => p,
        _ => match default_profile {
            Some(d) => d,
            None => DEFAULT_PROFILE_NAME@,
        },
    }
}

pub open spec fn opt_view(o: Option<String>) -> Option<Seq<char>> {
    match o {
        Some(s) => Some(s@),
        None => None,
    }
}

pub open spec fn opt_str_view(o: Option<&str>) -> Option<Seq<char>> {
    match o {
        Some(s) => Some(s@),
        None => None,
    }
}

impl ConfigStore {
    pub open spec fn view_profiles(&self) -> Seq<ProfileView> {
        profile_entries(self.profiles)
    }

    pub open spec fn default_view(&self) -> Option<Seq<char>> {
        opt_view(self.default_profile)
    }

    pub open spec fn wf(&self) -> bool {
        distinct_names(self.view_profiles())
    }

    /// An empty store.
    pub fn empty() -> (r: ConfigStore)
        ensures
            r.wf(),
            r.view_profiles().len() == 0,
            r.default_profile is None,
    {
        ConfigStore { profiles: profile_map_new(), default_profile: None }
    }
}

/// What the caller must do with the configuration file after an operation.
pub enum PendingWrite {
    Nothing,
    Save,
    Remove,
}

/// Where the configuration lives and how tokens are encrypted.
pub struct ConfigOptions {
    pub config_dir: Option<String>,
    pub crypto: Option<CryptoOptions>,
}

/// A profile in a listing; `token` is the stored (encrypted) value.
pub struct ProfileEntry {
    pub name: String,
    pub token: String,
    pub updated_at: String,
    pub is_default: bool,
}

/// A profile with its token decrypted.
pub struct ResolvedConfig {
    pub token: String,
    pub updated_at: String,
}

/// Entry point to the configuration.
pub struct ProfileConfigManager {
    config_dir: String,
    crypto: TokenCryptoService,
    store: ConfigStore,
    pending: PendingWrite,
}

/// The home directory, as `dirs::home_dir` finds it.
#[verifier::external_body]
pub(crate) fn home_dir() -> (r: Option<String>)
{
    dirs::home_dir().map(|p| p.to_string_lossy().into_owned())
}

/// The current time as RFC 3339 with milliseconds and `Z` (`chrono::Utc::now`).
#[verifier::external_body]
pub(crate) fn now_iso8601() -> (r: String)
{
    chrono::Utc::now().to_rfc3339_opts(chrono::SecondsFormat::Millis, true)
}

/// `base` joined with a relative `name`, the way `Path::join` adds a separator.
pub open spec fn joined_path(base: Seq<char>, name: Seq<char>) -> Seq<char> {
    if base.len() == 0 {
        name
    } else if base.last() == '/' {
        base + name
    } else {
        base + seq!['/'] + name
    }
}

/// Joins a relative `name` onto `base`.
pub fn join_path(base: &str, name: &str) -> (r: String)
    ensures
        r@ == joined_path(base@, name@),
{
    let v = chars_of(base);
    let mut r = base.to_string();
    if v.len() > 0 && v[v.len() - 1] != '/' {
        r.push('/');
    }
    r.push_str(name);
    proof {
        if v.len() > 0 && v@.last() != '/' {
            assert(base@.push('/') + name@ =~= base@ + seq!['/'] + name@);
        }
    }
    r
}

/// A configuration file of the old shape is migrated: it has a non-empty top-level
/// `token` and no `profiles`.
pub fn needs_legacy_migration(token: Option<&str>, has_profiles: bool) -> (r: bool)
    ensures
        r == ((token matches Some(t) && t@.len() > 0) && !has_profiles),
{
    match token {
        Some(t) => t.unicode_len() > 0 && !has_profiles,
        None => false,
    }
}

/// `No configuration found ...`, telling how to set up `profile`.
pub open spec fn no_config_text(profile: Seq<char>) -> Seq<char> {
    "No configuration found for profile \""@ + profile
        + "\". Use \"slack-cli config set --token <token> --profile "@ + profile + "\" to set up."@
}

pub fn no_config_message(profile: &str) -> (r: String)
    ensures
        r@ == no_config_text(profile@),
{
    let mut r = "No configuration found for profile \"".to_string();
    r.push_str(profile);
    r.push_str("\". Use \"slack-cli config set --token <token> --profile ");
    r.push_str(profile);
    r.push_str("\" to set up.");
    r
}

/// `****` for tokens of up to nine characters; otherwise the first and last four
/// characters around `-****-****-`.
pub open spec fn masked(t: Seq<char>) -> Seq<char> {
    if t.len() <= TOKEN_MIN_LENGTH {
        "****"@
    } else {
        t.take(4) + "-****-****-"@ + t.skip(t.len() - 4)
    }
}

pub fn mask_token(token: &str) -> (r: String)
    ensures
        r@ == masked(token@),
{
    let v = chars_of(token);
    if v.len() <= TOKEN_MIN_LENGTH {
        return "****".to_string();
    }
    let mut r = string_from_chars(&v, 0, TOKEN_MASK_LENGTH);
    r.push_str("-****-****-");
    let tail = string_from_chars(&v, v.len() - TOKEN_MASK_LENGTH, v.len());
    r.push_str(tail.as_str());
    proof {
        assert(v@.subrange(0, 4) =~= token@.take(4));
        assert(v@.subrange(v.len() - 4, v.len() as int) =~= token@.skip(token@.len() - 4));
    }
    r
}

/// `Profile "<name>" does not exist`.
pub open spec fn missing_profile_text(profile: Seq<char>) -> Seq<char> {
    "Profile \""@ + profile + "\" does not exist"@
}

proof fn lemma_index_found(ps: Seq<ProfileView>, name: Seq<char>)
    requires
        distinct_names(ps),
    ensures
        match profile_index(ps, name) {
            Some(i) => 0 <= i < ps.len() && ps[i].0 == name,
            None => forall|k: int| 0 <= k < ps.len() ==> #[trigger] ps[k].0 != name,
        },
    decreases ps.len(),
{
    if ps.len() > 0 {
        let front = ps.drop_last();
        assert forall|i: int, j: int| 0 <= i < front.len() && 0 <= j < front.len() && i != j
            implies #[trigger] front[i].0 != #[trigger] front[j].0 by {
            assert(front[i] == ps[i] && front[j] == ps[j]);
        }
        lemma_index_found(front, name);
        if ps.last().0 != name {
            match profile_index(front, name) {
                Some(i) => { assert(front[i] == ps[i]); },
                None => {
                    assert forall|k: int| 0 <= k < ps.len() implies #[trigger] ps[k].0 != name by {
                        if k < front.len() {
                            assert(front[k] == ps[k]);
                        }
                    }
                },
            }
        }
    }
}

proof fn lemma_index_of_unique(ps: Seq<ProfileView>, k: int)
    requires
        distinct_names(ps),
        0 <= k < ps.len(),
    ensures
        profile_index(ps, ps[k].0) == Some(k),
    decreases ps.len(),
{
    if k < ps.len() - 1 {
        let front = ps.drop_last();
        assert forall|i: int, j: int| 0 <= i < front.len() && 0 <= j < front.len() && i != j
            implies #[trigger] front[i].0 != #[trigger] front[j].0 by {
            assert(front[i] == ps[i] && front[j] == ps[j]);
        }
        assert(ps.last().0 != ps[k].0);
        assert(front[k] == ps[k]);
        lemma_index_of_unique(front, k);
    }
}

fn same(a: &String, b: &str) -> (r: bool)
    ensures
        r == (a@ == b@),
{
    crate::strings::str_eq(a.as_str(), b)
}

/// Position of `name` among the profiles.
fn find_profile(ps: &indexmap::IndexMap<String, StoredProfile>, name: &str) -> (r: Option<usize>)
    requires
        distinct_names(profile_entries(*ps)),
    ensures
        match r {
            Some(i) => profile_index(profile_entries(*ps), name@) == Some(i as int),
            None => profile_index(profile_entries(*ps), name@) is None,
        },
{
    let r = profile_map_index_of(ps, name);
    proof {
        let es = profile_entries(*ps);
        lemma_index_found(es, name@);
        match r {
            Some(i) => { lemma_index_of_unique(es, i as int); },
            None => {
                match profile_index(es, name@) {
                    Some(k) => { assert(es[k].0 == name@); },
                    None => {},
                }
            },
        }
    }
    r
}

fn clone_string(s: &String) -> (r: String)
    ensures
        r@ == s@,
{
    s.clone()
}

/// The store after a profile is set.
pub open spec fn stored_after_set(ps: Seq<ProfileView>, default_profile: Option<Seq<char>>, name: Seq<char>, encrypted: Seq<char>, updated_at: Seq<char>)
    -> (Seq<ProfileView>, Option<Seq<char>>)
{
    (
        insert_profile(ps, (name, encrypted, updated_at)),
        if default_profile is None || name == DEFAULT_PROFILE_NAME@ { Some(name) } else { default_profile },
    )
}

/// The store holds `token`, encrypted in the current format under `key`, as profile `name`,
/// and is otherwise what setting it makes of the old store.
pub open spec fn set_outcome(
    old_ps: Seq<ProfileView>,
    old_default: Option<Seq<char>>,
    key: Option<Seq<u8>>,
    name: Seq<char>,
    token: Seq<char>,
    new_ps: Seq<ProfileView>,
    new_default: Option<Seq<char>>,
) -> bool {
    exists|encrypted: Seq<char>, updated_at: Seq<char>|
        #![trigger stored_after_set(old_ps, old_default, name, encrypted, updated_at)]
        {
            &&& current_format(encrypted)
            &&& decrypt_outcome(key, encrypted) == Ok::<Seq<char>, DecryptFailure>(token)
            &&& (new_ps, new_default) == stored_after_set(old_ps, old_default, name, encrypted, updated_at)
        }
}

/// What reading a profile yields: its decrypted token (or the stored text when it is not
/// encrypted) and when it was set; `None` when there is no such profile.
pub open spec fn read_outcome(key: Option<Seq<u8>>, ps: Seq<ProfileView>, name: Seq<char>)
    -> Result<Option<(Seq<char>, Seq<char>)>, DecryptFailure>
{
    match profile_index(ps, name) {
        None => Ok(None),
        Some(i) => {
            let stored = ps[i].1;
            if encrypted_format(stored) {
                match decrypt_outcome(key, stored) {
                    Ok(t) => Ok(Some((t, ps[i].2))),
                    Err(f) => Err(f),
                }
            } else {
                Ok(Some((stored, ps[i].2)))
            }
        },
    }
}

/// Reading the profile succeeds: it is missing, or its token reads and either is
/// already in the current format or can be re-encrypted (a key is at hand and the
/// token is within AES-GCM's plaintext limit).
pub open spec fn reads_back(key: Option<Seq<u8>>, ps: Seq<ProfileView>, name: Seq<char>) -> bool {
    match read_outcome(key, ps, name) {
        Ok(Some(c)) => match profile_index(ps, name) {
            Some(i) => current_format(ps[i].1)
                || (key is Some && vstd::utf8::encode_utf8(c.0).len() <= crate::crypto::GCM_MAX_PLAINTEXT),
            None => true,
        },
        Ok(None) => true,
        Err(_) => false,
    }
}

proof fn lemma_insert_keeps_distinct(ps: Seq<ProfileView>, p: ProfileView)
    requires
        distinct_names(ps),
    ensures
        distinct_names(insert_profile(ps, p)),
        profile_index(insert_profile(ps, p), p.0) is Some,
        insert_profile(ps, p)[profile_index(insert_profile(ps, p), p.0)->0] == p,
{
    lemma_index_found(ps, p.0);
    let r = insert_profile(ps, p);
    match profile_index(ps, p.0) {
        Some(i) => {
            assert forall|a: int, b: int| 0 <= a < r.len() && 0 <= b < r.len() && a != b
                implies #[trigger] r[a].0 != #[trigger] r[b].0 by {
                if a == i {
                    assert(ps[b].0 != ps[i].0);
                } else if b == i {
                    assert(ps[a].0 != ps[i].0);
                }
            }
            lemma_index_of_unique(r, i);
        },
        None => {
            assert forall|a: int, b: int| 0 <= a < r.len() && 0 <= b < r.len() && a != b
                implies #[trigger] r[a].0 != #[trigger] r[b].0 by {
                if a < ps.len() && b < ps.len() {
                    assert(r[a] == ps[a] && r[b] == ps[b]);
                } else if a < ps.len() {
                    assert(r[a] == ps[a]);
                } else if b < ps.len() {
                    assert(r[b] == ps[b]);
                }
            }
            lemma_index_of_unique(r, ps.len() as int);
        },
    }
}

proof fn lemma_remove_keeps_distinct(ps: Seq<ProfileView>, name: Seq<char>)
    requires
        distinct_names(ps),
    ensures
        distinct_names(remove_profile(ps, name)),
{
    match profile_index(ps, name) {
        Some(i) => {
            lemma_index_found(ps, name);
            let r = ps.remove(i);
            assert forall|a: int, b: int| 0 <= a < r.len() && 0 <= b < r.len() && a != b
                implies #[trigger] r[a].0 != #[trigger] r[b].0 by {
                let a2 = if a < i { a } else { a + 1 };
                let b2 = if b < i { b } else { b + 1 };
                assert(r[a] == ps[a2] && r[b] == ps[b2]);
            }
        },
        None => {},
    }
}

/// A token stored by `set_token` reads back, from the store it leaves, as the token
/// that was set.
pub proof fn law_set_then_get(
    old_ps: Seq<ProfileView>,
    old_default: Option<Seq<char>>,
    key: Option<Seq<u8>>,
    name: Seq<char>,
    token: Seq<char>,
    new_ps: Seq<ProfileView>,
    new_default: Option<Seq<char>>,
)
    requires
        distinct_names(old_ps),
        set_outcome(old_ps, old_default, key, name, token, new_ps, new_default),
    ensures
        read_outcome(key, new_ps, name) matches Ok(Some(c)) && c.0 == token,
        reads_back(key, new_ps, name),
        distinct_names(new_ps),
{
    let (encrypted, updated_at) = choose|encrypted: Seq<char>, updated_at: Seq<char>| {
        &&& current_format(encrypted)
        &&& decrypt_outcome(key, encrypted) == Ok::<Seq<char>, DecryptFailure>(token)
        &&& (new_ps, new_default) == stored_after_set(old_ps, old_default, name, encrypted, updated_at)
    };
    lemma_insert_keeps_distinct(old_ps, (name, encrypted, updated_at));
}

/// After `clear_config`, the profile it cleared is gone (reading it finds nothing) and
/// the others stay.
pub proof fn law_clear_removes(ps: Seq<ProfileView>, name: Seq<char>, key: Option<Seq<u8>>)
    requires
        distinct_names(ps),
    ensures
        profile_index(remove_profile(ps, name), name) is None,
        read_outcome(key, remove_profile(ps, name), name) == Ok::<Option<(Seq<char>, Seq<char>)>, DecryptFailure>(None),
        distinct_names(remove_profile(ps, name)),
        forall|n: Seq<char>| n != name && (#[trigger] profile_index(ps, n)) is Some
            ==> profile_index(remove_profile(ps, name), n) is Some,
{
    lemma_remove_keeps_distinct(ps, name);
    lemma_index_found(ps, name);
    let r = remove_profile(ps, name);
    lemma_index_found(r, name);
    match profile_index(ps, name) {
        Some(i) => {
            match profile_index(r, name) {
                Some(k) => {
                    let k2 = if k < i { k } else { k + 1 };
                    assert(r[k] == ps[k2]);
                },
                None => {},
            }
        },
        None => {},
    }
    assert forall|n: Seq<char>| n != name && (#[trigger] profile_index(ps, n)) is Some
        implies profile_index(r, n) is Some by {
        lemma_index_found(ps, n);
        lemma_index_found(r, n);
        let j = profile_index(ps, n)->0;
        match profile_index(ps, name) {
            Some(i) => {
                if j != i {
                    let j2 = if j < i { j } else { j - 1 };
                    assert(r[j2] == ps[j]);
                }
            },
            None => {},
        }
    }
}

/// What reading profile `name` may give, as `get_config` states it: the token and time
/// the store reads back to, `None` for a missing profile, or the error of a token that
/// does not decrypt, or that cannot be encrypted again when it is migrated.
pub open spec fn config_read(key: Option<Seq<u8>>, ps: Seq<ProfileView>, name: Seq<char>,
    r: Result<Option<ResolvedConfig>, SlackCliError>) -> bool
{
    let outcome = read_outcome(key, ps, name);
    match r {
        Ok(Some(c)) => outcome == Ok::<Option<(Seq<char>, Seq<char>)>, DecryptFailure>(Some((c.token@, c.updated_at@))),
        Ok(None) => outcome == Ok::<Option<(Seq<char>, Seq<char>)>, DecryptFailure>(None),
        Err(e) => match outcome {
            Err(DecryptFailure::Malformed) => e matches SlackCliError::Validation(m) && m@ == ERR_INVALID_ENCRYPTED@,
            Err(DecryptFailure::Failed) => e matches SlackCliError::Configuration(m) && m@ == ERR_DECRYPT@,
            Ok(Some(_)) => e matches SlackCliError::Configuration(m) && m@ == ERR_ENCRYPT@,
            Ok(None) => false,
        },
    }
}

/// What reading profile `name` may give when it must exist, as `get_config_or_error`
/// states it: as [`config_read`], with a missing profile the error naming it.
pub open spec fn required_config_read(key: Option<Seq<u8>>, ps: Seq<ProfileView>, name: Seq<char>,
    r: Result<ResolvedConfig, SlackCliError>) -> bool
{
    let outcome = read_outcome(key, ps, name);
    match r {
        Ok(c) => outcome == Ok::<Option<(Seq<char>, Seq<char>)>, DecryptFailure>(Some((c.token@, c.updated_at@))),
        Err(e) => match outcome {
            Ok(None) => e matches SlackCliError::Configuration(m) && m@ == no_config_text(name),
            Err(DecryptFailure::Malformed) => e matches SlackCliError::Validation(m) && m@ == ERR_INVALID_ENCRYPTED@,
            Err(DecryptFailure::Failed) => e matches SlackCliError::Configuration(m) && m@ == ERR_DECRYPT@,
            Ok(Some(_)) => e matches SlackCliError::Configuration(m) && m@ == ERR_ENCRYPT@,
        },
    }
}

/// `get_config_or_error` is `get_config` with a missing profile made an error: when
/// both find the profile they give the same token and time; when `get_config` finds
/// none, the other fails naming the profile, and it never succeeds where `get_config`
/// finds none; a token that does not decrypt fails both alike.
pub proof fn law_required_config_is_config_or_missing(
    key: Option<Seq<u8>>,
    ps: Seq<ProfileView>,
    name: Seq<char>,
    found: Result<Option<ResolvedConfig>, SlackCliError>,
    required: Result<ResolvedConfig, SlackCliError>,
)
    requires
        config_read(key, ps, name, found),
        required_config_read(key, ps, name, required),
    ensures
        found matches Ok(Some(c)) ==> (required matches Ok(d) ==> c.token@ == d.token@ && c.updated_at@ == d.updated_at@),
        found matches Ok(None) ==> (required matches Err(e) && e matches SlackCliError::Configuration(m) && m@ == no_config_text(name)),
        required is Ok ==> !(found matches Ok(None)),
        read_outcome(key, ps, name) is Err ==> (found is Err && required is Err),
{
}

/// After `use_profile(p)` succeeds, `current_profile()` is `p`, and a command given no
/// profile works on `p`.
pub proof fn law_use_then_current(p: Seq<char>)
    ensures
        resolved_name(Some(p), None) == p,
        resolved_name(Some(p), Some(Seq::empty())) == p,
{
}

impl ProfileConfigManager {
    pub closed spec fn store_profiles(&self) -> Seq<ProfileView> {
        self.store.view_profiles()
    }

    pub closed spec fn store_default(&self) -> Option<Seq<char>> {
        self.store.default_view()
    }

    pub closed spec fn key_spec(&self) -> Option<Seq<u8>> {
        self.crypto.key_spec()
    }

    pub closed spec fn pending_spec(&self) -> PendingWrite {
        self.pending
    }

    pub closed spec fn dir_spec(&self) -> Seq<char> {
        self.config_dir@
    }

    pub closed spec fn wf(&self) -> bool {
        self.store.wf() && self.crypto.wf()
    }

    /// A manager for the default location (`~/.slack-cli`), with an empty store.
    pub fn new() -> (r: Result<ProfileConfigManager, SlackCliError>)
        ensures
            r matches Ok(m) ==> m.wf() && m.store_profiles().len() == 0 && m.store_default() is None
                && m.pending_spec() is Nothing && m.key_spec() is None
                && exists|home: Seq<char>| m.dir_spec() == #[trigger] joined_path(home, CONFIG_DIR_NAME@),
            r matches Err(e) ==> e matches SlackCliError::Configuration(msg) && msg@ == ERR_NO_HOME@,
    {
        Self::with_options(ConfigOptions { config_dir: None, crypto: None })
    }

    /// A manager for `options.config_dir` (or `~/.slack-cli`), with an empty store.
    pub fn with_options(options: ConfigOptions) -> (r: Result<ProfileConfigManager, SlackCliError>)
        ensures
            r matches Ok(m) ==> m.wf() && m.store_profiles().len() == 0 && m.store_default() is None
                && m.pending_spec() is Nothing
                && (options.config_dir matches Some(d) ==> m.dir_spec() == d@)
                && (options.config_dir is None ==> exists|home: Seq<char>| m.dir_spec() == #[trigger] joined_path(home, CONFIG_DIR_NAME@))
                && m.key_spec() == (match options.crypto {
                    Some(c) => match c.master_key {
                        Some(s) => Some(crate::crypto::passphrase_key(s@)),
                        None => None,
                    },
                    None => None,
                }),
            options.config_dir is Some ==> r is Ok,
            r matches Err(e) ==> e matches SlackCliError::Configuration(msg) && msg@ == ERR_NO_HOME@,
    {
        let config_dir = match options.config_dir {
            Some(d) => d,
            None => match home_dir() {
                Some(h) => {
                    let d = join_path(h.as_str(), CONFIG_DIR_NAME);
                    proof { assert(d@ == joined_path(h@, CONFIG_DIR_NAME@)); }
                    d
                },
                None => return Err(SlackCliError::Configuration(ERR_NO_HOME.to_string())),
            },
        };
        let crypto = match options.crypto {
            Some(c) => TokenCryptoService::with_options(c),
            None => TokenCryptoService::new(),
        };
        Ok(ProfileConfigManager { config_dir, crypto, store: ConfigStore::empty(), pending: PendingWrite::Nothing })
    }

    /// Replaces the cipher (for instance once the key file has been read).
    pub fn set_crypto(&mut self, crypto: TokenCryptoService)
        requires
            old(self).wf(),
            crypto.wf(),
        ensures
            final(self).wf(),
            final(self).key_spec() == crypto.key_spec(),
            final(self).store_profiles() == old(self).store_profiles(),
            final(self).store_default() == old(self).store_default(),
            final(self).pending_spec() == old(self).pending_spec(),
            final(self).dir_spec() == old(self).dir_spec(),
    {
        self.crypto = crypto;
    }

    /// Uses `store`, as read from the configuration file.
    pub fn use_store(&mut self, store: ConfigStore)
        requires
            old(self).wf(),
            store.wf(),
        ensures
            final(self).wf(),
            final(self).store_profiles() == store.view_profiles(),
            final(self).store_default() == store.default_view(),
            final(self).key_spec() == old(self).key_spec(),
            final(self).pending_spec() is Nothing,
            final(self).dir_spec() == old(self).dir_spec(),
    {
        self.store = store;
        self.pending = PendingWrite::Nothing;
    }

    /// The store to write back.
    pub fn store(&self) -> (r: &ConfigStore)
        ensures
            r.view_profiles() == self.store_profiles(),
            r.default_view() == self.store_default(),
    {
        &self.store
    }

    /// What must happen to the file after the last operation.
    pub fn pending(&self) -> (r: &PendingWrite)
        ensures
            *r == self.pending_spec(),
    {
        &self.pending
    }

    /// `<config dir>/config.json`.
    pub fn config_path(&self) -> (r: String)
        ensures
            r@ == joined_path(self.dir_spec(), CONFIG_FILE_NAME@),
    {
        join_path(self.config_dir.as_str(), CONFIG_FILE_NAME)
    }

    fn resolve_profile_name(&self, profile: Option<&str>) -> (r: String)
        ensures
            r@ == resolved_name(self.store_default(), opt_str_view(profile)),
    {
        match profile {
            Some(p) if p.unicode_len() > 0 => p.to_string(),
            _ => match &self.store.default_profile {
                Some(d) => d.clone(),
                None => DEFAULT_PROFILE_NAME.to_string(),
            },
        }
    }

    /// Stores `token` encrypted under the resolved profile and returns the profile name.
    /// The profile becomes the default when there is none yet or when it is `default`.
    pub fn set_token(&mut self, token: &str, profile: Option<&str>) -> (r: Result<String, SlackCliError>)
        requires
            old(self).wf(),
        ensures
            final(self).wf(),
            final(self).key_spec() == old(self).key_spec(),
            final(self).dir_spec() == old(self).dir_spec(),
            old(self).key_spec() is Some && vstd::utf8::encode_utf8(token@).len() <= crate::crypto::GCM_MAX_PLAINTEXT ==> r is Ok,
            r matches Ok(name) ==> name@ == resolved_name(old(self).store_default(), opt_str_view(profile)),
            r matches Ok(name) ==> final(self).pending_spec() is Save,
            r matches Ok(name) ==> set_outcome(old(self).store_profiles(), old(self).store_default(),
                old(self).key_spec(), name@, token@, final(self).store_profiles(), final(self).store_default()),
            r matches Err(e) ==> e matches SlackCliError::Configuration(m) && m@ == ERR_ENCRYPT@,
            r is Err ==> final(self).store_profiles() == old(self).store_profiles()
                && final(self).store_default() == old(self).store_default()
                && final(self).pending_spec() == old(self).pending_spec(),
    {
        let name = self.resolve_profile_name(profile);
        let ghost old_default = self.store.default_view();
        let encrypted = match self.crypto.encrypt(token) {
            Ok(e) => e,
            Err(e) => return Err(e),
        };
        let updated_at = now_iso8601();
        let ghost enc = encrypted@;
        let ghost upd = updated_at@;
        let entry = StoredProfile { token: encrypted, updated_at };
        let ghost before = self.store.view_profiles();
        proof {
            lemma_insert_keeps_distinct(before, (name@, enc, upd));
            lemma_index_found(before, name@);
        }
        let found = find_profile(&self.store.profiles, name.as_str());
        let k = clone_string(&name);
        let at = profile_map_insert(&mut self.store.profiles, k, entry);
        proof {
            match found {
                Some(i) => {
                    assert(before[i as int].0 == name@);
                    if at != i {
                        assert(before[at as int].0 == before[i as int].0);
                    }
                    assert(self.store.view_profiles() == before.update(i as int, (name@, enc, upd)));
                },
                None => {
                    assert(!(exists|k: int| 0 <= k < before.len() && (#[trigger] before[k]).0 == name@));
                    assert(self.store.view_profiles() == before.push((name@, enc, upd)));
                },
            }
        }
        let is_default_name = same(&name, DEFAULT_PROFILE_NAME);
        if self.store.default_profile.is_none() || is_default_name {
            self.store.default_profile = Some(clone_string(&name));
        }
        self.pending = PendingWrite::Save;
        proof {
            assert(before == old(self).store_profiles());
            assert(old_default == old(self).store_default());
            assert(current_format(enc));
            assert(decrypt_outcome(old(self).key_spec(), enc) == Ok::<Seq<char>, DecryptFailure>(token@));
            assert((self.store_profiles(), self.store_default())
                == stored_after_set(old(self).store_profiles(), old(self).store_default(), name@, enc, upd));
            assert(set_outcome(old(self).store_profiles(), old(self).store_default(), old(self).key_spec(),
                name@, token@, self.store_profiles(), self.store_default()));
        }
        Ok(name)
    }

    /// The decrypted configuration of the resolved profile, or `None` when it does not
    /// exist. A token stored in an older form (plain text or the legacy format) is
    /// re-encrypted in the current format, and the store then asks to be saved.
    pub fn get_config(&mut self, profile: Option<&str>) -> (r: Result<Option<ResolvedConfig>, SlackCliError>)
        requires
            old(self).wf(),
        ensures
            final(self).wf(),
            final(self).key_spec() == old(self).key_spec(),
            final(self).dir_spec() == old(self).dir_spec(),
            final(self).store_default() == old(self).store_default(),
            reads_back(old(self).key_spec(), old(self).store_profiles(),
                resolved_name(old(self).store_default(), opt_str_view(profile))) ==> r is Ok,
            config_read(old(self).key_spec(), old(self).store_profiles(),
                resolved_name(old(self).store_default(), opt_str_view(profile)), r),
            ({
                let name = resolved_name(old(self).store_default(), opt_str_view(profile));
                match profile_index(old(self).store_profiles(), name) {
                    Some(i) => if current_format(old(self).store_profiles()[i].1) {
                        final(self).store_profiles() == old(self).store_profiles()
                            && final(self).pending_spec() == old(self).pending_spec()
                    } else {
                        r is Ok ==> (final(self).pending_spec() is Save
                            && final(self).store_profiles().len() == old(self).store_profiles().len()
                            && current_format(final(self).store_profiles()[i].1)
                            && (r matches Ok(Some(c)) ==> decrypt_outcome(old(self).key_spec(), final(self).store_profiles()[i].1)
                                == Ok::<Seq<char>, DecryptFailure>(c.token@))
                            && final(self).store_profiles() == old(self).store_profiles().update(i,
                                (name, final(self).store_profiles()[i].1, old(self).store_profiles()[i].2)))
                    },
                    None => final(self).store_profiles() == old(self).store_profiles()
                        && final(self).pending_spec() == old(self).pending_spec(),
                }
            }),
    {
        let name = self.resolve_profile_name(profile);
        let idx = match find_profile(&self.store.profiles, name.as_str()) {
            Some(i) => i,
            None => return Ok(None),
        };
        proof {
            lemma_index_found(self.store.view_profiles(), name@);
        }
        let (_, stored) = profile_map_entry(&self.store.profiles, idx);
        let stored_token = clone_string(&stored.token);
        let updated_at = clone_string(&stored.updated_at);
        let plaintext = if is_encrypted(stored_token.as_str()) {
            match self.crypto.decrypt(stored_token.as_str()) {
                Ok(t) => t,
                Err(e) => return Err(e),
            }
        } else {
            clone_string(&stored_token)
        };
        if !is_current_format(stored_token.as_str()) {
            let reencrypted = match self.crypto.encrypt(plaintext.as_str()) {
                Ok(e) => e,
                Err(e) => return Err(e),
            };
            let ghost before = self.store.view_profiles();
            let k = clone_string(&name);
            let u = clone_string(&updated_at);
            let ghost enc = reencrypted@;
            let at = profile_map_insert(&mut self.store.profiles, k, StoredProfile { token: reencrypted, updated_at: u });
            proof {
                assert(before[idx as int].0 == name@);
                if at != idx {
                    assert(before[at as int].0 == before[idx as int].0);
                }
                assert(self.store.view_profiles() == before.update(idx as int, (name@, enc, updated_at@)));
                assert(self.store.view_profiles() =~= before.update(idx as int, (name@, self.store.view_profiles()[idx as int].1, before[idx as int].2)));
                assert forall|a: int, b: int| 0 <= a < self.store.view_profiles().len() && 0 <= b < self.store.view_profiles().len() && a != b
                    implies #[trigger] self.store.view_profiles()[a].0 != #[trigger] self.store.view_profiles()[b].0 by {
                    assert(before[a].0 != before[b].0);
                }
            }
            self.pending = PendingWrite::Save;
        }
        Ok(Some(ResolvedConfig { token: plaintext, updated_at }))
    }

    /// Like [`Self::get_config`], but a missing profile is a configuration error naming it.
    pub fn get_config_or_error(&mut self, profile: Option<&str>) -> (r: Result<ResolvedConfig, SlackCliError>)
        requires
            old(self).wf(),
        ensures
            final(self).wf(),
            final(self).key_spec() == old(self).key_spec(),
            final(self).dir_spec() == old(self).dir_spec(),
            final(self).store_default() == old(self).store_default(),
            ({
                let name = resolved_name(old(self).store_default(), opt_str_view(profile));
                (reads_back(old(self).key_spec(), old(self).store_profiles(), name)
                    && read_outcome(old(self).key_spec(), old(self).store_profiles(), name) matches Ok(Some(_))) ==> r is Ok
            }),
            required_config_read(old(self).key_spec(), old(self).store_profiles(),
                resolved_name(old(self).store_default(), opt_str_view(profile)), r),
    {
        match self.get_config(profile) {
            Ok(Some(c)) => Ok(c),
            Ok(None) => {
                let name = self.resolve_profile_name(profile);
                Err(SlackCliError::Configuration(no_config_message(name.as_str())))
            },
            Err(e) => Err(e),
        }
    }

    /// The profiles in insertion order, with their stored (still encrypted) tokens; the
    /// default profile (or `default` when none is set) is marked.
    pub fn list_profiles(&self) -> (r: Vec<ProfileEntry>)
        ensures
            r@.len() == self.store_profiles().len(),
            forall|i: int| 0 <= i < r@.len() ==> {
                &&& (#[trigger] r@[i]).name@ == self.store_profiles()[i].0
                &&& r@[i].token@ == self.store_profiles()[i].1
                &&& r@[i].updated_at@ == self.store_profiles()[i].2
                &&& r@[i].is_default == (self.store_profiles()[i].0 == resolved_name(self.store_default(), None))
            },
    {
        let current = self.resolve_profile_name(None);
        let mut out: Vec<ProfileEntry> = Vec::new();
        let mut i: usize = 0;
        let n = profile_map_len(&self.store.profiles);
        while i < n
            invariant
                n == self.store_profiles().len(),
                i <= n,
                current@ == resolved_name(self.store_default(), None),
                out@.len() == i,
                forall|k: int| 0 <= k < i ==> {
                    &&& (#[trigger] out@[k]).name@ == self.store_profiles()[k].0
                    &&& out@[k].token@ == self.store_profiles()[k].1
                    &&& out@[k].updated_at@ == self.store_profiles()[k].2
                    &&& out@[k].is_default == (self.store_profiles()[k].0 == current@)
                },
            decreases n - i,
        {
            let (entry_name, entry) = profile_map_entry(&self.store.profiles, i);
            let is_default = same(entry_name, current.as_str());
            out.push(ProfileEntry {
                name: clone_string(entry_name),
                token: clone_string(&entry.token),
                updated_at: clone_string(&entry.updated_at),
                is_default,
            });
            i = i + 1;
        }
        out
    }

    /// Makes `profile` the default; an unknown profile is a configuration error.
    pub fn use_profile(&mut self, profile: &str) -> (r: Result<(), SlackCliError>)
        requires
            old(self).wf(),
        ensures
            final(self).wf(),
            final(self).key_spec() == old(self).key_spec(),
            final(self).dir_spec() == old(self).dir_spec(),
            final(self).store_profiles() == old(self).store_profiles(),
            profile_index(old(self).store_profiles(), profile@) is Some <==> r is Ok,
            r is Ok ==> final(self).store_default() == Some(profile@) && final(self).pending_spec() is Save,
            r matches Err(e) ==> (e matches SlackCliError::Configuration(m) && m@ == missing_profile_text(profile@))
                && final(self).store_default() == old(self).store_default()
                && final(self).pending_spec() == old(self).pending_spec(),
    {
        match find_profile(&self.store.profiles, profile) {
            None => {
                let mut m = "Profile \"".to_string();
                m.push_str(profile);
                m.push_str("\" does not exist");
                Err(SlackCliError::Configuration(m))
            },
            Some(_) => {
                self.store.default_profile = Some(profile.to_string());
                self.pending = PendingWrite::Save;
                Ok(())
            },
        }
    }

    /// The default profile, or `default` when none is set.
    pub fn current_profile(&self) -> (r: String)
        ensures
            r@ == resolved_name(self.store_default(), None),
    {
        self.resolve_profile_name(None)
    }

    /// Removes the resolved profile (an unknown name is not an error) and returns its
    /// name. When it was the default, the first remaining profile becomes the default;
    /// when none remains, the configuration file is to be removed.
    pub fn clear_config(&mut self, profile: Option<&str>) -> (r: String)
        requires
            old(self).wf(),
        ensures
            final(self).wf(),
            final(self).key_spec() == old(self).key_spec(),
            final(self).dir_spec() == old(self).dir_spec(),
            r@ == resolved_name(old(self).store_default(), opt_str_view(profile)),
            final(self).store_profiles() == remove_profile(old(self).store_profiles(), r@),
            old(self).store_default() == Some(r@) ==> (if final(self).store_profiles().len() > 0 {
                final(self).store_default() == Some(final(self).store_profiles()[0].0) && final(self).pending_spec() is Save
            } else {
                final(self).store_default() is None && final(self).pending_spec() is Remove
            }),
            old(self).store_default() != Some(r@) ==> final(self).store_default() == old(self).store_default()
                && final(self).pending_spec() is Save,
    {
        let name = self.resolve_profile_name(profile);
        let ghost before = self.store.view_profiles();
        proof {
            lemma_remove_keeps_distinct(before, name@);
            lemma_index_found(before, name@);
        }
        match find_profile(&self.store.profiles, name.as_str()) {
            Some(i) => {
                profile_map_remove_at(&mut self.store.profiles, i);
                proof {
                    assert(self.store.view_profiles() =~= before.remove(i as int));
                }
            },
            None => {},
        }
        let was_default = match &self.store.default_profile {
            Some(d) => same(d, name.as_str()),
            None => false,
        };
        if was_default {
            if profile_map_len(&self.store.profiles) > 0 {
                let (first, _) = profile_map_entry(&self.store.profiles, 0);
                self.store.default_profile = Some(clone_string(first));
                self.pending = PendingWrite::Save;
            } else {
                self.store.default_profile = None;
                self.pending = PendingWrite::Remove;
            }
        } else {
            self.pending = PendingWrite::Save;
        }
        name
    }

    /// The token to use: the explicit one when non-blank, else the one from the
    /// environment when non-blank, else the stored token of the resolved profile
    /// (`NotAuthenticated` when there is none). Both given tokens are trimmed.
    pub fn resolve_token(&mut self, explicit: Option<&str>, env_token: Option<&str>, profile: Option<&str>)
        -> (r: Result<String, SlackCliError>)
        requires
            old(self).wf(),
        ensures
            final(self).wf(),
            final(self).key_spec() == old(self).key_spec(),
            final(self).store_default() == old(self).store_default(),
            ({
                let ex = match explicit { Some(e) => trim(e@), None => Seq::empty() };
                let en = match env_token { Some(e) => trim(e@), None => Seq::empty() };
                let name = resolved_name(old(self).store_default(), opt_str_view(profile));
                let outcome = read_outcome(old(self).key_spec(), old(self).store_profiles(), name);
                if ex.len() > 0 {
                    r matches Ok(t) && t@ == ex
                } else if en.len() > 0 {
                    r matches Ok(t) && t@ == en
                } else {
                    &&& (reads_back(old(self).key_spec(), old(self).store_profiles(), name) && outcome matches Ok(Some(_))) ==> r is Ok
                    &&& match r {
                        Ok(t) => outcome matches Ok(Some(c)) && t@ == c.0,
                        Err(e) => match outcome {
                            Ok(None) => e is NotAuthenticated,
                            Err(DecryptFailure::Malformed) => e matches SlackCliError::Validation(m) && m@ == ERR_INVALID_ENCRYPTED@,
                            Err(DecryptFailure::Failed) => e matches SlackCliError::Configuration(m) && m@ == ERR_DECRYPT@,
                            Ok(Some(_)) => e matches SlackCliError::Configuration(m) && m@ == ERR_ENCRYPT@,
                        },
                    }
                }
            }),
    {
        match explicit {
            Some(e) => {
                let t = trimmed(e);
                if !t.is_empty() {
                    return Ok(t);
                }
            },
            None => {},
        }
        match env_token {
            Some(e) => {
                let t = trimmed(e);
                if !t.is_empty() {
                    return Ok(t);
                }
            },
            None => {},
        }
        match self.get_config(profile) {
            Ok(Some(c)) => Ok(c.token),
            Ok(None) => Err(SlackCliError::NotAuthenticated),
            Err(e) => Err(e),
        }
    }

    /// Turns a configuration file of the old shape (a single top-level token) into a
    /// store with that token, re-encrypted, as the `default` profile; the store then
    /// asks to be saved.
    pub fn migrate_legacy_store(&mut self, raw_token: &str, updated_at: Option<String>) -> (r: Result<(), SlackCliError>)
        requires
            old(self).wf(),
        ensures
            final(self).wf(),
            final(self).key_spec() == old(self).key_spec(),
            final(self).dir_spec() == old(self).dir_spec(),
            r is Ok ==> {
                let plain = if encrypted_format(raw_token@) {
                    decrypt_outcome(old(self).key_spec(), raw_token@)
                } else {
                    Ok(raw_token@)
                };
                &&& final(self).store_profiles().len() == 1
                &&& final(self).store_profiles()[0].0 == DEFAULT_PROFILE_NAME@
                &&& current_format(final(self).store_profiles()[0].1)
                &&& plain matches Ok(t) && decrypt_outcome(old(self).key_spec(), final(self).store_profiles()[0].1) == Ok::<Seq<char>, DecryptFailure>(t)
                &&& (updated_at matches Some(u) ==> final(self).store_profiles()[0].2 == u@)
                &&& final(self).store_default() == Some(DEFAULT_PROFILE_NAME@)
                &&& final(self).pending_spec() is Save
            },
            ({
                let plain = if encrypted_format(raw_token@) {
                    decrypt_outcome(old(self).key_spec(), raw_token@)
                } else {
                    Ok(raw_token@)
                };
                &&& (plain matches Ok(t) && old(self).key_spec() is Some
                    && vstd::utf8::encode_utf8(t).len() <= crate::crypto::GCM_MAX_PLAINTEXT) ==> r is Ok
                &&& plain matches Err(DecryptFailure::Malformed) ==> (r matches Err(e)
                    && e matches SlackCliError::Validation(m) && m@ == ERR_INVALID_ENCRYPTED@)
                &&& plain matches Err(DecryptFailure::Failed) ==> (r matches Err(e)
                    && e matches SlackCliError::Configuration(m) && m@ == ERR_DECRYPT@)
                &&& (plain is Ok && r is Err) ==> (r matches Err(e)
                    && e matches SlackCliError::Configuration(m) && m@ == ERR_ENCRYPT@)
            }),
            r is Err ==> final(self).store_profiles() == old(self).store_profiles()
                && final(self).store_default() == old(self).store_default()
                && final(self).pending_spec() == old(self).pending_spec(),
    {
        let plaintext = if is_encrypted(raw_token) {
            match self.crypto.decrypt(raw_token) {
                Ok(t) => t,
                Err(e) => return Err(e),
            }
        } else {
            raw_token.to_string()
        };
        let encrypted = match self.crypto.encrypt(plaintext.as_str()) {
            Ok(e) => e,
            Err(e) => return Err(e),
        };
        let updated = match updated_at {
            Some(u) => u,
            None => now_iso8601(),
        };
        let mut profiles = profile_map_new();
        profile_map_insert(&mut profiles, DEFAULT_PROFILE_NAME.to_string(), StoredProfile { token: encrypted, updated_at: updated });
        self.store = ConfigStore { profiles, default_profile: Some(DEFAULT_PROFILE_NAME.to_string()) };
        self.pending = PendingWrite::Save;
        Ok(())
    }
}

} // verus!
