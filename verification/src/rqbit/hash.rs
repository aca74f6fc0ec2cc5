//! Info-hash normalisation and the keys under which per-torrent state is kept.

use vstd::prelude::*;
use crate::text::{chars_of, is_digit, is_hex, lower, is_ascii_hexdigit, to_lower, push_all};

verus! {

/// The hex digits of `s`, lowercased, in order: what `normalize_hash` keeps.
pub open spec fn normalized_hash(s: Seq<char>) -> Seq<char>
    decreases s.len(),
{
    if s.len() == 0 {
        Seq::empty()
    } else if is_hex(s.last()) {
        normalized_hash(s.drop_last()).push(lower(s.last()))
    } else {
        normalized_hash(s.drop_last())
    }
}

/// Whether `c` is a lowercase hex digit.
pub open spec fn is_lower_hex(c: char) -> bool {
    is_digit(c) || ('a' <= c && c <= 'f')
}

/// Trims `value`, keeps its ASCII hex digits and lowercases them.
pub fn normalize_hash(value: &str) -> (out: String)
    ensures
        out@ == normalized_hash(value@),
{
    let cs = chars_of(value);
    let mut out = String::new();
    let mut i: usize = 0;
    while i < cs.len()
        invariant
            i <= cs@.len(),
            cs@ == value@,
            out@ == normalized_hash(cs@.subrange(0, i as int)),
        decreases cs@.len() - i,
    {
        proof {
            assert(cs@.subrange(0, i + 1).drop_last() =~= cs@.subrange(0, i as int));
        }
        let c = cs[i];
        if is_ascii_hexdigit(c) {
            out.push(to_lower(c));
        }
        i = i + 1;
    }
    proof {
        assert(cs@.subrange(0, cs@.len() as int) =~= cs@);
    }
    out
}

/// Law: a normalized hash holds only lowercase hex digits.
pub proof fn normalized_hash_is_lower_hex(s: Seq<char>)
    ensures
        forall|i: int| 0 <= i < normalized_hash(s).len() ==> is_lower_hex(#[trigger] normalized_hash(s)[i]),
    decreases s.len(),
{
    if s.len() > 0 {
        normalized_hash_is_lower_hex(s.drop_last());
        let c = s.last();
        if is_hex(c) {
            lower_hex_is_lower_hex(c);
            let n = normalized_hash(s.drop_last());
            assert forall|i: int| 0 <= i < n.push(lower(c)).len() implies is_lower_hex(
                #[trigger] n.push(lower(c))[i],
            ) by {
                if i < n.len() {
                    assert(n.push(lower(c))[i] == n[i]);
                }
            }
        }
    }
}

proof fn lower_hex_is_lower_hex(c: char)
    requires
        is_hex(c),
    ensures
        is_lower_hex(lower(c)),
{
    if 'A' <= c && c <= 'F' {
        let u = c as u32;
        assert(65 <= u <= 70);
        assert(((u + 32) as char) as u32 == u + 32);
    }
}

/// Law: normalizing a normalized hash changes nothing.
pub proof fn normalize_hash_idempotent(s: Seq<char>)
    ensures
        normalized_hash(normalized_hash(s)) == normalized_hash(s),
    decreases s.len(),
{
    if s.len() > 0 {
        normalize_hash_idempotent(s.drop_last());
        let n = normalized_hash(s.drop_last());
        if is_hex(s.last()) {
            let l = lower(s.last());
            assert(n.push(l).drop_last() =~= n);
        }
    }
}

/// Law: a hash of lowercase hex digits is its own normal form, so no digit
/// of a hash is ever lost.
pub proof fn lower_hex_hashes_are_kept(s: Seq<char>)
    requires
        forall|i: int| 0 <= i < s.len() ==> is_lower_hex(#[trigger] s[i]),
    ensures
        normalized_hash(s) == s,
    decreases s.len(),
{
    if s.len() > 0 {
        let init = s.drop_last();
        assert forall|i: int| 0 <= i < init.len() implies is_lower_hex(#[trigger] init[i]) by {
            assert(init[i] == s[i]);
        }
        lower_hex_hashes_are_kept(init);
        assert(is_lower_hex(s[s.len() - 1]));
        assert(init.push(s.last()) =~= s);
    }
}

/// Normalizing is idempotent on every sequence.
pub proof fn normalize_hash_idempotent_all()
    ensures
        forall|s: Seq<char>| #[trigger] normalized_hash(normalized_hash(s)) == normalized_hash(s),
{
    assert forall|s: Seq<char>| #[trigger] normalized_hash(normalized_hash(s)) == normalized_hash(s) by {
        normalize_hash_idempotent(s);
    }
}

/// The prefix of the keys that hold when a torrent was first seen finished.
pub open spec fn finished_at_prefix() -> Seq<char> {
    "rqbit.finished_at."@
}

/// The prefix of the keys that hold a torrent's seeding goals.
pub open spec fn seed_config_prefix() -> Seq<char> {
    "rqbit.seed_config."@
}

/// The state key under which the seeding goals of `hash` are kept.
pub fn seed_config_var_key(hash: &str) -> (key: String)
    ensures
        key@ == seed_config_prefix() + normalized_hash(hash@),
{
    let mut key = String::from_str("rqbit.seed_config.");
    let h = normalize_hash(hash);
    push_all(&mut key, h.as_str());
    key
}

/// The state key under which the time `hash` was first seen finished is kept.
pub fn finished_at_var_key(hash: &str) -> (key: String)
    ensures
        key@ == finished_at_prefix() + normalized_hash(hash@),
{
    let mut key = String::from_str("rqbit.finished_at.");
    let h = normalize_hash(hash);
    push_all(&mut key, h.as_str());
    key
}

/// Law: two spellings of one hash share their state keys.
pub proof fn state_keys_ignore_spelling(a: Seq<char>, b: Seq<char>)
    requires
        normalized_hash(a) == normalized_hash(b),
    ensures
        seed_config_prefix() + normalized_hash(a) == seed_config_prefix() + normalized_hash(b),
        finished_at_prefix() + normalized_hash(a) == finished_at_prefix() + normalized_hash(b),
{
}

/// Law: the keys of a hash and of its normalized form are the same.
pub proof fn state_keys_of_normalized_hash(s: Seq<char>)
    ensures
        seed_config_prefix() + normalized_hash(normalized_hash(s)) == seed_config_prefix()
            + normalized_hash(s),
        finished_at_prefix() + normalized_hash(normalized_hash(s)) == finished_at_prefix()
            + normalized_hash(s),
{
    normalize_hash_idempotent(s);
}

} // verus!
