//! A configuration object of string keys and values, handed to C as an
//! opaque handle: create, set, get (a copy), remove, count.

use vstd::prelude::*;
use crate::kv::StrMap;

verus! {

/// A set of string key-value pairs.
pub struct Config {
    map: StrMap<String>,
}

impl View for Config {
    type V = Map<Seq<char>, Seq<char>>;

    closed spec fn view(&self) -> Map<Seq<char>, Seq<char>> {
        self.map@.map_values(|s: String| s@)
    }
}

/// A new, empty configuration.
pub fn config_new() -> (r: Config)
    ensures
        r@ == Map::<Seq<char>, Seq<char>>::empty(),
{
    let r = Config { map: StrMap::new() };
    assert(r@ =~= Map::<Seq<char>, Seq<char>>::empty());
    r
}

/// Inserts or updates `key` with a copy of `value`.
pub fn config_set(cfg: &mut Config, key: &str, value: &str)
    ensures
        final(cfg)@ == old(cfg)@.insert(key@, value@),
        final(cfg)@.dom().finite(),
        final(cfg)@.len() == old(cfg)@.len() + (if old(cfg)@.contains_key(key@) { 0int } else { 1int }),
{
    let v = value.to_owned();
    cfg.map.insert(key, v);
    assert(cfg@ =~= old(cfg)@.insert(key@, value@));
    assert(old(cfg)@.dom() =~= old(cfg).map@.dom());
    assert(cfg@.dom() =~= cfg.map@.dom());
    proof {
        if old(cfg)@.contains_key(key@) {
            assert(cfg@.dom() =~= old(cfg)@.dom());
        }
    }
}

/// A copy of the value stored under `key`, or `None` when absent.
pub fn config_get(cfg: &Config, key: &str) -> (r: Option<String>)
    ensures
        r is None <==> !cfg@.contains_key(key@),
        r matches Some(v) ==> v@ == cfg@[key@],
{
    match cfg.map.get(key) {
        Some(v) => Some(v.clone()),
        None => None,
    }
}

/// Removes `key`; returns whether it existed.
pub fn config_remove(cfg: &mut Config, key: &str) -> (existed: bool)
    ensures
        existed == old(cfg)@.contains_key(key@),
        final(cfg)@ == old(cfg)@.remove(key@),
        final(cfg)@.dom().finite(),
        final(cfg)@.len() == old(cfg)@.len() - (if old(cfg)@.contains_key(key@) { 1int } else { 0int }),
{
    let r = cfg.map.remove(key);
    assert(cfg@ =~= old(cfg)@.remove(key@));
    assert(old(cfg)@.dom() =~= old(cfg).map@.dom());
    assert(cfg@.dom() =~= cfg.map@.dom());
    proof {
        if !old(cfg)@.contains_key(key@) {
            assert(cfg@.dom() =~= old(cfg)@.dom());
        }
    }
    r
}

/// The number of stored pairs.
pub fn config_count(cfg: &Config) -> (r: usize)
    ensures
        r == cfg@.len(),
        cfg@.dom().finite(),
{
    let n = cfg.map.len();
    assert(cfg@.dom() =~= cfg.map@.dom());
    n
}

/// After setting `key` to `value`, reading `key` gives `value`, reading any
/// other key gives what it gave before, and the count grows by one exactly
/// when `key` was new.
pub proof fn law_read_after_set(
    before: Map<Seq<char>, Seq<char>>,
    key: Seq<char>,
    value: Seq<char>,
    other: Seq<char>,
)
    requires
        before.dom().finite(),
    ensures
        before.insert(key, value).contains_key(key),
        before.insert(key, value)[key] == value,
        other != key ==> (before.insert(key, value).contains_key(other) == before.contains_key(other)
            && (before.contains_key(other) ==> before.insert(key, value)[other] == before[other])),
        before.insert(key, value).len() == if before.contains_key(key) {
            before.len()
        } else {
            before.len() + 1
        },
{
    if before.contains_key(key) {
        assert(before.insert(key, value).dom() =~= before.dom());
    }
}

/// After removing `key`, it is absent, other keys are untouched, and the
/// count shrinks by one exactly when `key` was present.
pub proof fn law_remove(before: Map<Seq<char>, Seq<char>>, key: Seq<char>, other: Seq<char>)
    requires
        before.dom().finite(),
    ensures
        !before.remove(key).contains_key(key),
        other != key ==> (before.remove(key).contains_key(other) == before.contains_key(other)
            && (before.contains_key(other) ==> before.remove(key)[other] == before[other])),
        before.remove(key).len() == if before.contains_key(key) {
            before.len() - 1
        } else {
            before.len() as int
        },
{
    if !before.contains_key(key) {
        assert(before.remove(key).dom() =~= before.dom());
    }
}

} // verus!
