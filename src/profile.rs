//! Resolution of a machine to a saved connection profile: an explicit override
//! first, then the profiles whose names contain the machine's name.

use vstd::prelude::*;
use crate::text::{chars_of, contains, contains_chars, lower_of, lowercase, occurs_at};

verus! {

/// Explicit profile choices, from lower-cased machine name to profile path.
/// A later entry for the same name replaces an earlier one.
pub struct OverrideMap {
    entries: Vec<(String, String)>,
}

/// The mapping that a list of entries describes, later entries winning.
pub open spec fn entries_map(es: Seq<(String, String)>) -> Map<Seq<char>, Seq<char>>
    decreases es.len(),
{
    if es.len() == 0 {
        Map::empty()
    } else {
        entries_map(es.drop_last()).insert(es.last().0@, es.last().1@)
    }
}

/// Entries after position `n` that do not name `k` leave its mapping as the
/// first `n` entries give it.
proof fn lemma_entries_map_suffix(es: Seq<(String, String)>, k: Seq<char>, n: int)
    requires
        0 <= n <= es.len(),
        forall|j: int| n <= j < es.len() ==> (#[trigger] es[j]).0@ != k,
    ensures
        entries_map(es).contains_key(k) == entries_map(es.take(n)).contains_key(k),
        entries_map(es).contains_key(k) ==> entries_map(es)[k] == entries_map(es.take(n))[k],
    decreases es.len() - n,
{
    if n < es.len() {
        lemma_entries_map_suffix(es.drop_last(), k, n);
        assert(es.drop_last().take(n) =~= es.take(n));
    } else {
        assert(es.take(n) =~= es);
    }
}

impl View for OverrideMap {
    type V = Map<Seq<char>, Seq<char>>;

    closed spec fn view(&self) -> Map<Seq<char>, Seq<char>> {
        entries_map(self.entries@)
    }
}

impl OverrideMap {
    /// The empty map.
    pub fn new() -> (r: OverrideMap)
        ensures
            r@ == Map::<Seq<char>, Seq<char>>::empty(),
    {
        OverrideMap { entries: Vec::new() }
    }

    /// Maps `key` to `path`, replacing what `key` mapped to before.
    pub fn insert(&mut self, key: String, path: String)
        ensures
            final(self)@ == old(self)@.insert(key@, path@),
    {
        let ghost before = self.entries@;
        self.entries.push((key, path));
        assert(self.entries@.drop_last() =~= before);
    }

    /// The path that `key` maps to.
    pub fn get(&self, key: &String) -> (r: Option<String>)
        ensures
            match r {
                Some(p) => self@.contains_key(key@) && p@ == self@[key@],
                None => !self@.contains_key(key@),
            },
    {
        let es = &self.entries;
        let mut i: usize = es.len();
        while i > 0
            invariant
                es@ == self.entries@,
                i <= es.len(),
                forall|j: int| i <= j < es.len() ==> (#[trigger] es@[j]).0@ != key@,
            decreases i,
        {
            if es[i - 1].0 == *key {
                proof {
                    lemma_entries_map_suffix(es@, key@, i as int);
                    assert(es@.take(i as int).drop_last() =~= es@.take(i - 1));
                    assert(es@.take(i as int).last() == es@[i - 1]);
                }
                return Some(es[i - 1].1.clone());
            }
            i -= 1;
        }
        proof {
            lemma_entries_map_suffix(es@, key@, 0);
            assert(es@.take(0) =~= Seq::<(String, String)>::empty());
        }
        None
    }
}

/// A saved profile as the profile store lists it: its path and its base name.
pub struct ProfileEntry {
    pub path: String,
    pub stem: String,
}

/// Profiles as (path, base name) pairs.
pub open spec fn entry_views(es: Seq<ProfileEntry>) -> Seq<(Seq<char>, Seq<char>)> {
    es.map_values(|e: ProfileEntry| (e.path@, e.stem@))
}

/// Profiles as (path, lower-cased base name) pairs.
pub open spec fn folded_views(es: Seq<ProfileEntry>) -> Seq<(Seq<char>, Seq<char>)> {
    es.map_values(|e: ProfileEntry| (e.path@, lower_of(e.stem@)))
}

/// How many of the profiles have a name that contains `key`.
pub open spec fn match_count(key: Seq<char>, cs: Seq<(Seq<char>, Seq<char>)>) -> nat
    decreases cs.len(),
{
    if cs.len() == 0 {
        0
    } else {
        (if contains(cs[0].1, key) {
            1nat
        } else {
            0nat
        }) + match_count(key, cs.drop_first())
    }
}

/// The path of the first profile whose name contains `key`.
pub open spec fn first_match(key: Seq<char>, cs: Seq<(Seq<char>, Seq<char>)>) -> Option<Seq<char>>
    decreases cs.len(),
{
    if cs.len() == 0 {
        None
    } else if contains(cs[0].1, key) {
        Some(cs[0].0)
    } else {
        first_match(key, cs.drop_first())
    }
}

/// The path of the first profile whose name is `key`.
pub open spec fn first_exact(key: Seq<char>, cs: Seq<(Seq<char>, Seq<char>)>) -> Option<Seq<char>>
    decreases cs.len(),
{
    if cs.len() == 0 {
        None
    } else if cs[0].1 == key {
        Some(cs[0].0)
    } else {
        first_exact(key, cs.drop_first())
    }
}

/// The profile of the machine named `key`: its override if there is one;
/// else the only profile whose name contains `key`; else, among several, the
/// first whose name is `key`; else the first whose name contains it; else none.
pub open spec fn resolve_profile(
    key: Seq<char>,
    overrides: Map<Seq<char>, Seq<char>>,
    cs: Seq<(Seq<char>, Seq<char>)>,
) -> Option<Seq<char>> {
    if overrides.contains_key(key) {
        Some(overrides[key])
    } else if match_count(key, cs) == 1 {
        first_match(key, cs)
    } else {
        match first_exact(key, cs) {
            Some(p) => Some(p),
            None => first_match(key, cs),
        }
    }
}

/// The profile of the machine whose lower-cased name is `key`, among
/// profiles whose base names are already lower-cased.
pub fn choose_profile(key: &String, overrides: &OverrideMap, candidates: &Vec<ProfileEntry>) -> (r:
    Option<String>)
    ensures
        r matches Some(p) ==> resolve_profile(key@, overrides@, entry_views(candidates@)) == Some(
            p@,
        ),
        r is None ==> resolve_profile(key@, overrides@, entry_views(candidates@)) is None,
{
    if let Some(p) = overrides.get(key) {
        return Some(p);
    }
    let ghost cs = entry_views(candidates@);
    let key_chars = chars_of(key.as_str());
    let mut count: usize = 0;
    let mut first: Option<usize> = None;
    let mut exact: Option<usize> = None;
    let mut i: usize = 0;
    assert(cs.subrange(0, cs.len() as int) =~= cs);
    while i < candidates.len()
        invariant
            cs == entry_views(candidates@),
            key_chars@ == key@,
            i <= candidates.len(),
            count <= i,
            match_count(key@, cs) == count + match_count(key@, cs.subrange(i as int, cs.len() as int)),
            match first {
                Some(j) => j < i && first_match(key@, cs) == Some(cs[j as int].0),
                None => first_match(key@, cs) == first_match(key@, cs.subrange(i as int, cs.len() as int)),
            },
            match exact {
                Some(j) => j < i && first_exact(key@, cs) == Some(cs[j as int].0),
                None => first_exact(key@, cs) == first_exact(key@, cs.subrange(i as int, cs.len() as int)),
            },
        decreases candidates.len() - i,
    {
        let ghost rest = cs.subrange(i as int, cs.len() as int);
        assert(rest.drop_first() =~= cs.subrange(i + 1, cs.len() as int));
        assert(rest[0] == (candidates@[i as int].path@, candidates@[i as int].stem@));
        let stem = chars_of(candidates[i].stem.as_str());
        if contains_chars(&stem, &key_chars) {
            count += 1;
            if first.is_none() {
                first = Some(i);
            }
        }
        if exact.is_none() && candidates[i].stem == *key {
            exact = Some(i);
        }
        i += 1;
    }
    let pick = if count == 1 {
        first
    } else if exact.is_some() {
        exact
    } else {
        first
    };
    match pick {
        Some(j) => Some(candidates[j].path.clone()),
        None => None,
    }
}

/// The profile of the machine named `vm_stem`: names are compared lower-cased.
pub fn remmina_profile_for_vm(vm_stem: &str, overrides: &OverrideMap, profiles: &Vec<ProfileEntry>) -> (r:
    Option<String>)
    ensures
        r matches Some(p) ==> resolve_profile(lower_of(vm_stem@), overrides@, folded_views(profiles@))
            == Some(p@),
        r is None ==> resolve_profile(lower_of(vm_stem@), overrides@, folded_views(profiles@)) is None,
{
    let key = lowercase(vm_stem);
    let mut folded: Vec<ProfileEntry> = Vec::new();
    let mut i: usize = 0;
    while i < profiles.len()
        invariant
            i <= profiles.len(),
            entry_views(folded@) == folded_views(profiles@).take(i as int),
        decreases profiles.len() - i,
    {
        let ghost before = folded@;
        let e = ProfileEntry { path: profiles[i].path.clone(), stem: lowercase(profiles[i].stem.as_str()) };
        let ghost item = (e.path@, e.stem@);
        assert(item == folded_views(profiles@)[i as int]);
        folded.push(e);
        assert(entry_views(folded@) =~= entry_views(before).push(item));
        assert(entry_views(folded@) =~= folded_views(profiles@).take(i + 1));
        i += 1;
    }
    assert(folded_views(profiles@).take(profiles.len() as int) =~= folded_views(profiles@));
    choose_profile(&key, overrides, &folded)
}

proof fn lemma_contains_itself(s: Seq<char>)
    ensures
        contains(s, s),
{
    assert(s.subrange(0, s.len() as int) =~= s);
    assert(occurs_at(s, s, 0));
}

proof fn lemma_no_match(key: Seq<char>, cs: Seq<(Seq<char>, Seq<char>)>)
    requires
        forall|j: int| 0 <= j < cs.len() ==> !contains(#[trigger] cs[j].1, key),
    ensures
        match_count(key, cs) == 0,
        first_match(key, cs) is None,
        first_exact(key, cs) is None,
    decreases cs.len(),
{
    if cs.len() > 0 {
        lemma_contains_itself(key);
        assert(!contains(cs[0].1, key));
        assert forall|j: int| 0 <= j < cs.drop_first().len() implies !contains(
            #[trigger] cs.drop_first()[j].1,
            key,
        ) by {
            assert(cs.drop_first()[j] == cs[j + 1]);
        }
        lemma_no_match(key, cs.drop_first());
    }
}

proof fn lemma_count_zero(key: Seq<char>, cs: Seq<(Seq<char>, Seq<char>)>, i: int)
    requires
        match_count(key, cs) == 0,
        0 <= i < cs.len(),
    ensures
        !contains(cs[i].1, key),
    decreases cs.len(),
{
    if i > 0 {
        assert(cs.drop_first()[i - 1] == cs[i]);
        lemma_count_zero(key, cs.drop_first(), i - 1);
    }
}

proof fn lemma_single_match(key: Seq<char>, cs: Seq<(Seq<char>, Seq<char>)>, i: int)
    requires
        0 <= i < cs.len(),
        contains(cs[i].1, key),
        forall|j: int| 0 <= j < cs.len() && j != i ==> !contains(#[trigger] cs[j].1, key),
    ensures
        match_count(key, cs) == 1,
        first_match(key, cs) == Some(cs[i].0),
    decreases cs.len(),
{
    let rest = cs.drop_first();
    if i == 0 {
        assert forall|j: int| 0 <= j < rest.len() implies !contains(#[trigger] rest[j].1, key) by {
            assert(rest[j] == cs[j + 1]);
        }
        lemma_no_match(key, rest);
    } else {
        assert(!contains(cs[0].1, key));
        assert(rest[i - 1] == cs[i]);
        assert forall|j: int| 0 <= j < rest.len() && j != i - 1 implies !contains(
            #[trigger] rest[j].1,
            key,
        ) by {
            assert(rest[j] == cs[j + 1]);
        }
        lemma_single_match(key, rest, i - 1);
    }
}

proof fn lemma_count_one(key: Seq<char>, cs: Seq<(Seq<char>, Seq<char>)>, i: int)
    requires
        0 <= i < cs.len(),
        contains(cs[i].1, key),
        match_count(key, cs) == 1,
    ensures
        first_match(key, cs) == Some(cs[i].0),
    decreases cs.len(),
{
    let rest = cs.drop_first();
    if i == 0 {
        assert forall|j: int| 0 <= j < cs.len() && j != 0 implies !contains(#[trigger] cs[j].1, key) by {
            assert(rest[j - 1] == cs[j]);
            lemma_count_zero(key, rest, j - 1);
        }
        lemma_single_match(key, cs, 0);
    } else {
        assert(rest[i - 1] == cs[i]);
        if contains(cs[0].1, key) {
            lemma_count_zero(key, rest, i - 1);
        }
        lemma_count_one(key, rest, i - 1);
    }
}

proof fn lemma_first_exact(key: Seq<char>, cs: Seq<(Seq<char>, Seq<char>)>, i: int)
    requires
        0 <= i < cs.len(),
        cs[i].1 == key,
        forall|j: int| 0 <= j < i ==> (#[trigger] cs[j]).1 != key,
    ensures
        first_exact(key, cs) == Some(cs[i].0),
    decreases cs.len(),
{
    if i > 0 {
        let rest = cs.drop_first();
        assert(cs[0].1 != key);
        assert(rest[i - 1] == cs[i]);
        assert forall|j: int| 0 <= j < i - 1 implies (#[trigger] rest[j]).1 != key by {
            assert(rest[j] == cs[j + 1]);
        }
        lemma_first_exact(key, rest, i - 1);
    }
}

/// An override for the machine's lower-cased name is its profile, whatever
/// profiles the store lists.
pub proof fn law_override_wins(vm: Seq<char>, overrides: Map<Seq<char>, Seq<char>>, profiles: Seq<ProfileEntry>)
    requires
        overrides.contains_key(lower_of(vm)),
    ensures
        resolve_profile(lower_of(vm), overrides, folded_views(profiles)) == Some(
            overrides[lower_of(vm)],
        ),
{
}

/// Without an override, a machine none of whose profiles' names contain its
/// name has no profile.
pub proof fn law_no_candidate(key: Seq<char>, overrides: Map<Seq<char>, Seq<char>>, cs: Seq<(Seq<char>, Seq<char>)>)
    requires
        !overrides.contains_key(key),
        forall|j: int| 0 <= j < cs.len() ==> !contains(#[trigger] cs[j].1, key),
    ensures
        resolve_profile(key, overrides, cs) is None,
{
    lemma_no_match(key, cs);
}

/// Without an override, the only profile whose name contains the machine's
/// name is its profile.
pub proof fn law_single_candidate(
    key: Seq<char>,
    overrides: Map<Seq<char>, Seq<char>>,
    cs: Seq<(Seq<char>, Seq<char>)>,
    i: int,
)
    requires
        !overrides.contains_key(key),
        0 <= i < cs.len(),
        contains(cs[i].1, key),
        forall|j: int| 0 <= j < cs.len() && j != i ==> !contains(#[trigger] cs[j].1, key),
    ensures
        resolve_profile(key, overrides, cs) == Some(cs[i].0),
{
    lemma_single_match(key, cs, i);
}

/// Without an override, the first profile whose name is exactly the
/// machine's name is its profile, however many other names contain it.
pub proof fn law_exact_name_preferred(
    key: Seq<char>,
    overrides: Map<Seq<char>, Seq<char>>,
    cs: Seq<(Seq<char>, Seq<char>)>,
    i: int,
)
    requires
        !overrides.contains_key(key),
        0 <= i < cs.len(),
        cs[i].1 == key,
        forall|j: int| 0 <= j < i ==> (#[trigger] cs[j]).1 != key,
    ensures
        resolve_profile(key, overrides, cs) == Some(cs[i].0),
{
    lemma_contains_itself(key);
    lemma_first_exact(key, cs, i);
    if match_count(key, cs) == 1 {
        lemma_count_one(key, cs, i);
    }
}

} // verus!
