//! How a device is found from what a user types: an exact alias, an exact
//! device id, or a prefix of exactly one device id.

use vstd::prelude::*;
use crate::text::is_prefix;

verus! {

/// The view of an optional alias.
pub open spec fn alias_view(a: Option<String>) -> Option<Seq<char>> {
    match a {
        Some(s) => Some(s@),
        None => None,
    }
}

/// The first of the first `n` ids that equals `key`.
pub open spec fn first_id(ids: Seq<Seq<char>>, key: Seq<char>, n: int) -> Option<int>
    decreases n,
{
    if n <= 0 {
        None
    } else {
        match first_id(ids, key, n - 1) {
            Some(i) => Some(i),
            None => if ids[n - 1] == key {
                Some(n - 1)
            } else {
                None
            },
        }
    }
}

/// The first of the first `n` aliases that is present and equals `key`.
pub open spec fn first_alias(aliases: Seq<Option<Seq<char>>>, key: Seq<char>, n: int) -> Option<
    int,
>
    decreases n,
{
    if n <= 0 {
        None
    } else {
        match first_alias(aliases, key, n - 1) {
            Some(i) => Some(i),
            None => if aliases[n - 1] == Some(key) {
                Some(n - 1)
            } else {
                None
            },
        }
    }
}

/// How many of the first `n` ids start with `p`.
pub open spec fn prefix_count(ids: Seq<Seq<char>>, p: Seq<char>, n: int) -> nat
    decreases n,
{
    if n <= 0 {
        0
    } else if is_prefix(p, ids[n - 1]) {
        prefix_count(ids, p, n - 1) + 1
    } else {
        prefix_count(ids, p, n - 1)
    }
}

/// The last of the first `n` ids that starts with `p` (-1 when none does).
pub open spec fn last_prefix(ids: Seq<Seq<char>>, p: Seq<char>, n: int) -> int
    decreases n,
{
    if n <= 0 {
        -1
    } else if is_prefix(p, ids[n - 1]) {
        n - 1
    } else {
        last_prefix(ids, p, n - 1)
    }
}

/// The device that exactly one id starts with `p`, if there is one.
pub open spec fn unique_prefix(ids: Seq<Seq<char>>, p: Seq<char>) -> Option<int> {
    if prefix_count(ids, p, ids.len() as int) == 1 {
        Some(last_prefix(ids, p, ids.len() as int))
    } else {
        None
    }
}

/// Resolution that tries the alias first, then the exact id, then a unique
/// id prefix (the order of the admin tools).
pub open spec fn resolve_alias_first(
    ids: Seq<Seq<char>>,
    aliases: Seq<Option<Seq<char>>>,
    key: Seq<char>,
) -> Option<int> {
    match first_alias(aliases, key, aliases.len() as int) {
        Some(i) => Some(i),
        None => match first_id(ids, key, ids.len() as int) {
            Some(i) => Some(i),
            None => unique_prefix(ids, key),
        },
    }
}

/// Resolution that tries the exact id first, then the alias, then a unique
/// id prefix (the order of the relay).
pub open spec fn resolve_id_first(
    ids: Seq<Seq<char>>,
    aliases: Seq<Option<Seq<char>>>,
    key: Seq<char>,
) -> Option<int> {
    match first_id(ids, key, ids.len() as int) {
        Some(i) => Some(i),
        None => match first_alias(aliases, key, aliases.len() as int) {
            Some(i) => Some(i),
            None => unique_prefix(ids, key),
        },
    }
}

pub proof fn lemma_first_id_found(ids: Seq<Seq<char>>, key: Seq<char>, n: int)
    requires
        0 <= n <= ids.len(),
    ensures
        first_id(ids, key, n) matches Some(i) ==> 0 <= i < n && ids[i] == key && forall|j: int|
            0 <= j < i ==> ids[j] != key,
        first_id(ids, key, n) is None ==> forall|j: int| 0 <= j < n ==> ids[j] != key,
    decreases n,
{
    if n > 0 {
        lemma_first_id_found(ids, key, n - 1);
    }
}

pub proof fn lemma_first_alias_found(aliases: Seq<Option<Seq<char>>>, key: Seq<char>, n: int)
    requires
        0 <= n <= aliases.len(),
    ensures
        first_alias(aliases, key, n) matches Some(i) ==> 0 <= i < n && aliases[i] == Some(key)
            && forall|j: int| 0 <= j < i ==> aliases[j] != Some(key),
        first_alias(aliases, key, n) is None ==> forall|j: int|
            0 <= j < n ==> aliases[j] != Some(key),
    decreases n,
{
    if n > 0 {
        lemma_first_alias_found(aliases, key, n - 1);
    }
}

pub proof fn lemma_last_prefix_bounds(ids: Seq<Seq<char>>, p: Seq<char>, n: int)
    requires
        0 <= n <= ids.len(),
    ensures
        prefix_count(ids, p, n) > 0 ==> 0 <= last_prefix(ids, p, n) < n && is_prefix(
            p,
            ids[last_prefix(ids, p, n)],
        ),
        prefix_count(ids, p, n) == 0 ==> last_prefix(ids, p, n) == -1,
    decreases n,
{
    if n > 0 {
        lemma_last_prefix_bounds(ids, p, n - 1);
    }
}

/// A resolved device is one of the devices.
pub proof fn lemma_resolve_in_range(
    ids: Seq<Seq<char>>,
    aliases: Seq<Option<Seq<char>>>,
    key: Seq<char>,
)
    requires
        ids.len() == aliases.len(),
    ensures
        resolve_alias_first(ids, aliases, key) matches Some(i) ==> 0 <= i < ids.len(),
        resolve_id_first(ids, aliases, key) matches Some(i) ==> 0 <= i < ids.len(),
{
    lemma_first_id_found(ids, key, ids.len() as int);
    lemma_first_alias_found(aliases, key, aliases.len() as int);
    lemma_last_prefix_bounds(ids, key, ids.len() as int);
}

/// Once an alias is found among the first `m`, it stays the first one.
pub proof fn lemma_first_alias_stable(
    aliases: Seq<Option<Seq<char>>>,
    key: Seq<char>,
    m: int,
    n: int,
)
    requires
        m <= n,
        first_alias(aliases, key, m) is Some,
    ensures
        first_alias(aliases, key, n) == first_alias(aliases, key, m),
    decreases n - m,
{
    if m < n {
        lemma_first_alias_stable(aliases, key, m, n - 1);
    }
}

/// Once an id is found among the first `m`, it stays the first one.
pub proof fn lemma_first_id_stable(ids: Seq<Seq<char>>, key: Seq<char>, m: int, n: int)
    requires
        m <= n,
        first_id(ids, key, m) is Some,
    ensures
        first_id(ids, key, n) == first_id(ids, key, m),
    decreases n - m,
{
    if m < n {
        lemma_first_id_stable(ids, key, m, n - 1);
    }
}

} // verus!
