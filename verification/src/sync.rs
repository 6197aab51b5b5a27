use vstd::prelude::*;
use vstd::string::*;

use crate::cache::{cached_created_at, cached_hash, cached_id, updated_entry, Cache, CacheData, CacheDataView};
use crate::loaders::metadata::{TemplateMetadata, TemplateMetadataView};

use sha2::{Digest, Sha256};

verus! {

/// The version of the tool, as it names itself to the API.
pub const VERSION: &'static str = "0.1.0";

/// The `User-Agent` the tool sends: its name and version, and who runs it.
pub fn format_user_agent(user_agent: String) -> (r: String)
    ensures
        r@ == "hive/"@ + VERSION@ + " by Merethin, used by "@ + user_agent@,
{
    String::from_str("hive/").concat(VERSION).concat(" by Merethin, used by ").concat(user_agent.as_str())
}

pub const SECONDS_PER_DAY: u64 = 86400;

/// A template is published afresh once as many whole days as it asks for
/// have passed since its dispatch was created; templates that ask for no
/// such thing, or whose dispatch was never created, are not.
pub open spec fn regeneration_due(t: TemplateMetadataView, cache: Map<Seq<char>, CacheDataView>, now: u64) -> bool {
    match (t.regen, cached_created_at(cache, t.id)) {
        (Some(regen), Some(created)) => (now - created) / (SECONDS_PER_DAY as int) >= regen,
        _ => false,
    }
}

/// Whether the template's dispatch is due to be created anew at time `now`
/// (seconds since the Unix epoch).
pub fn should_regenerate(metadata: &TemplateMetadata, cache: &Cache, now: u64) -> (r: bool)
    requires
        cache.wf(),
        metadata.regen is Some ==> (cached_created_at(cache@, metadata.id@) matches Some(created)
            ==> created <= now),
    ensures
        r == regeneration_due(metadata@, cache@, now),
{
    match metadata.regen {
        Some(regen) => match cache.created_at(metadata.id.as_str()) {
            Some(last_update) => {
                let delay: u64 = (now - last_update) / SECONDS_PER_DAY;
                delay >= regen
            },
            None => false,
        },
        None => false,
    }
}

/// The SHA-256 digest of `data`, as `sha2` computes it.
pub uninterp spec fn sha256(data: Seq<u8>) -> Seq<u8>;

/// `sha2::Sha256::digest` (through `sha2::Digest`), copied into a `Vec`: the
/// contract claims that the result is the digest `sha256` of exactly the bytes
/// given, and that it is 32 bytes long, the output size of SHA-256.
#[verifier::external_body]
fn sha256_digest(data: &[u8]) -> (r: Vec<u8>)
    ensures
        r@ == sha256(data@),
        r@.len() == 32,
{
    Sha256::digest(data).to_vec()
}

/// The lower-case hexadecimal digit for a value below sixteen.
pub open spec fn hex_digit(d: nat) -> char {
    if d < 10 { (48 + d) as char } else { (87 + d) as char }
}

/// Bytes in lower-case hexadecimal, two digits to a byte.
pub open spec fn hex_lower(b: Seq<u8>) -> Seq<char>
    decreases b.len(),
{
    if b.len() == 0 {
        Seq::empty()
    } else {
        hex_lower(b.drop_last()) + seq![hex_digit((b.last() / 16) as nat), hex_digit((b.last() % 16) as nat)]
    }
}

fn hex_char(d: u8) -> (c: char)
    requires
        d < 16,
    ensures
        c == hex_digit(d as nat),
{
    if d < 10 {
        (48u8 + d) as char
    } else {
        (87u8 + d) as char
    }
}

/// Bytes written in lower-case hexadecimal, two digits to a byte.
pub fn hex_string(bytes: &Vec<u8>) -> (r: String)
    ensures
        r@ == hex_lower(bytes@),
{
    let mut r = String::new();
    for k in 0..bytes.len()
        invariant
            r@ == hex_lower(bytes@.take(k as int)),
    {
        let b: u8 = bytes[k];
        crate::text::push_char(&mut r, hex_char(b / 16));
        crate::text::push_char(&mut r, hex_char(b % 16));
        assert(bytes@.take(k + 1).drop_last() =~= bytes@.take(k as int));
    }
    assert(bytes@.take(bytes@.len() as int) =~= bytes@);
    r
}

/// The fingerprint by which rendered content is recognised: the SHA-256
/// digest of its UTF-8 bytes, in lower-case hexadecimal.
pub fn content_hash(content: &str) -> (r: String)
    ensures
        r@ == hex_lower(sha256(content.spec_bytes())),
{
    let digest = sha256_digest(content.as_bytes());
    hex_string(&digest)
}

/// What to do with a template's freshly rendered content.
pub enum UpdatePlan {
    /// Nothing: the content is what was last published and no regeneration is due.
    Unchanged,
    /// Replace the dispatch with this id.
    Edit(u64),
    /// Publish a new dispatch.
    Create,
}

/// The plan for a template: unchanged content is left alone unless a
/// regeneration is due; otherwise the dispatch the template fixes is edited,
/// else the one the cache remembers (but not when regenerating), else a new
/// one is created.
pub open spec fn plan_spec(t: TemplateMetadataView, cache: Map<Seq<char>, CacheDataView>, regen: bool, hash: Seq<char>) -> UpdatePlan {
    if !regen && cached_hash(cache, t.id) == Some(hash) {
        UpdatePlan::Unchanged
    } else {
        match t.dispatchid {
            Some(d) => UpdatePlan::Edit(d),
            None => if !regen {
                match cached_id(cache, t.id) {
                    Some(d) => UpdatePlan::Edit(d),
                    None => UpdatePlan::Create,
                }
            } else {
                UpdatePlan::Create
            },
        }
    }
}

/// Decides what to do with a template whose rendered content has the hash
/// `hash`; `regen` tells whether a regeneration is due.
pub fn plan_update(template: &TemplateMetadata, cache: &Cache, regen: bool, hash: &str) -> (r: UpdatePlan)
    requires
        cache.wf(),
    ensures
        r == plan_spec(template@, cache@, regen, hash@),
{
    if !regen {
        if let Some(cached) = cache.hash(template.id.as_str()) {
            if String::from_str(cached) == String::from_str(hash) {
                return UpdatePlan::Unchanged;
            }
        }
    }
    match template.dispatchid {
        Some(d) => UpdatePlan::Edit(d),
        None => if !regen {
            match cache.id(template.id.as_str()) {
                Some(d) => UpdatePlan::Edit(d),
                None => UpdatePlan::Create,
            }
        } else {
            UpdatePlan::Create
        },
    }
}

/// Notes in the cache that the plan was carried out and the API answered
/// with the dispatch id `dispatchid`: an edit keeps the entry's creation
/// time, a creation starts a new entry at `now`.
pub fn record_published(cache: &mut Cache, template_id: String, plan: &UpdatePlan, dispatchid: u64, hash: String, now: u64)
    requires
        old(cache).wf(),
        !(plan is Unchanged),
    ensures
        final(cache).wf(),
        plan is Edit ==> final(cache)@ == old(cache)@.insert(
            template_id@,
            updated_entry(old(cache)@, template_id@, CacheDataView { id: dispatchid, hash: hash@, created_at: now }),
        ),
        plan is Create ==> final(cache)@ == old(cache)@.insert(
            template_id@,
            CacheDataView { id: dispatchid, hash: hash@, created_at: now },
        ),
{
    let data = CacheData::new(dispatchid, hash, now);
    match plan {
        UpdatePlan::Edit(_) => cache.update(template_id, data),
        _ => cache.set(template_id, data),
    }
}

/// Content that is unchanged is not sent again unless a regeneration is due;
/// a regeneration creates a new dispatch unless the template fixes one; and a
/// template that fixes a dispatch always edits that one.
pub proof fn law_plan(t: TemplateMetadataView, cache: Map<Seq<char>, CacheDataView>, regen: bool, hash: Seq<char>)
    ensures
        !regen && cached_hash(cache, t.id) == Some(hash) ==> plan_spec(t, cache, regen, hash) is Unchanged,
        regen && t.dispatchid is None ==> plan_spec(t, cache, regen, hash) is Create,
        (regen || cached_hash(cache, t.id) != Some(hash)) && t.dispatchid is Some
            ==> plan_spec(t, cache, regen, hash) == UpdatePlan::Edit(t.dispatchid->0),
        !regen && cached_hash(cache, t.id) != Some(hash) && t.dispatchid is None && cached_id(cache, t.id) is Some
            ==> plan_spec(t, cache, regen, hash) == UpdatePlan::Edit(cached_id(cache, t.id)->0),
        !regen && cached_hash(cache, t.id) != Some(hash) && t.dispatchid is None && cached_id(cache, t.id) is None
            ==> plan_spec(t, cache, regen, hash) is Create,
        plan_spec(t, cache, regen, hash) is Create ==> t.dispatchid is None && (regen || cached_id(cache, t.id) is None),
{
}

/// With a creation time `created` on record and a period of `r` days, a
/// regeneration is due exactly once at least `r` whole days (of 86400
/// seconds) have passed; so once it is due, it stays due at every later time.
pub proof fn law_regeneration_schedule(t: TemplateMetadataView, cache: Map<Seq<char>, CacheDataView>, now: u64, later: u64)
    ensures
        t.regen is Some && cache.contains_key(t.id) && cache[t.id].created_at <= now ==> (regeneration_due(t, cache, now)
            <==> now - cache[t.id].created_at >= t.regen->0 * 86400),
        t.regen is Some && cache.contains_key(t.id) && cache[t.id].created_at <= now && now <= later
            && regeneration_due(t, cache, now) ==> regeneration_due(t, cache, later),
{
    if t.regen is Some && cache.contains_key(t.id) && cache[t.id].created_at <= now {
        let r: int = t.regen->0 as int;
        let x: int = now - cache[t.id].created_at;
        let y: int = later - cache[t.id].created_at;
        assert((x / 86400 >= r) <==> (x >= r * 86400)) by (nonlinear_arith)
            requires
                x >= 0,
                r >= 0,
        ;
        if now <= later {
            assert((y / 86400 >= r) <==> (y >= r * 86400)) by (nonlinear_arith)
                requires
                    y >= 0,
                    r >= 0,
            ;
        }
    }
}

/// A regeneration is never due for a template that asks for none, nor for one
/// whose dispatch was never created.
pub proof fn law_no_regeneration_without_schedule(t: TemplateMetadataView, cache: Map<Seq<char>, CacheDataView>, now: u64)
    ensures
        t.regen is None ==> !regeneration_due(t, cache, now),
        !cache.contains_key(t.id) ==> !regeneration_due(t, cache, now),
{
}

} // verus!
