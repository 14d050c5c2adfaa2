//! The variables of the shell, as a list of names and values passed
//! around explicitly.  The first entry for a name is the one that counts.

use vstd::prelude::*;
use vstd::string::*;

verus! {

/// The variables as texts.
pub open spec fn env_view(env: Seq<(String, String)>) -> Seq<(Seq<char>, Seq<char>)> {
    Seq::new(env.len(), |i: int| (env[i].0@, env[i].1@))
}

/// The value of the first entry named `key`, if there is one.
pub open spec fn env_find(env: Seq<(Seq<char>, Seq<char>)>, key: Seq<char>) -> Option<Seq<char>>
    decreases env.len(),
{
    if env.len() == 0 {
        None
    } else if env[0].0 == key {
        Some(env[0].1)
    } else {
        env_find(env.skip(1), key)
    }
}

/// The value of the variable `key`, the empty text if it is not set.
pub open spec fn env_lookup(env: Seq<(Seq<char>, Seq<char>)>, key: Seq<char>) -> Seq<char> {
    match env_find(env, key) {
        Some(value) => value,
        None => Seq::empty(),
    }
}

/// The value of the variable `key`, `default` if it is not set.
pub open spec fn env_or(env: Seq<(Seq<char>, Seq<char>)>, key: Seq<char>, default: Seq<char>) -> Seq<
    char,
> {
    match env_find(env, key) {
        Some(value) => value,
        None => default,
    }
}

/// The variables after `key` has been set to `value`: the first entry
/// named `key` is replaced; where there is none, one is added at the end.
pub open spec fn env_set(env: Seq<(Seq<char>, Seq<char>)>, key: Seq<char>, value: Seq<char>) -> Seq<
    (Seq<char>, Seq<char>),
>
    decreases env.len(),
{
    if env.len() == 0 {
        seq![(key, value)]
    } else if env[0].0 == key {
        seq![(key, value)] + env.skip(1)
    } else {
        seq![env[0]] + env_set(env.skip(1), key, value)
    }
}

/// A variable that has been set has the value it was set to, and no other
/// variable has changed.
pub proof fn lemma_set_then_find(
    env: Seq<(Seq<char>, Seq<char>)>,
    key: Seq<char>,
    value: Seq<char>,
    other: Seq<char>,
)
    ensures
        env_find(env_set(env, key, value), key) == Some(value),
        other != key ==> env_find(env_set(env, key, value), other) == env_find(env, other),
    decreases env.len(),
{
    if env.len() == 0 {
        let after = env_set(env, key, value);
        assert(after[0] == (key, value));
        assert(after.skip(1).len() == 0);
        assert(env_find(after.skip(1), other) is None);
    } else if env[0].0 == key {
        let after = env_set(env, key, value);
        assert(after[0] == (key, value));
        assert(after.skip(1) == env.skip(1));
    } else {
        lemma_set_then_find(env.skip(1), key, value, other);
        let after = env_set(env, key, value);
        assert(after[0] == env[0]);
        assert(after.skip(1) == env_set(env.skip(1), key, value));
    }
}

/// Where no entry before `i` is named `key`, what holds for the entries
/// from `i` on decides.
proof fn lemma_find_from(env: Seq<(Seq<char>, Seq<char>)>, key: Seq<char>, i: int)
    requires
        0 <= i <= env.len(),
        forall|j: int| 0 <= j < i ==> env[j].0 != key,
    ensures
        env_find(env, key) == env_find(env.skip(i), key),
        env_set(env, key, Seq::empty()).len() == i + env_set(env.skip(i), key, Seq::empty()).len(),
    decreases i,
{
    if i == 0 {
        assert(env.skip(0) == env);
    } else {
        let rest = env.skip(1);
        assert forall|j: int| 0 <= j < i - 1 implies rest[j].0 != key by {
            assert(rest[j] == env[j + 1]);
        }
        lemma_find_from(rest, key, i - 1);
        assert(rest.skip(i - 1) == env.skip(i));
        assert(env[0].0 != key);
    }
}

/// Setting replaces the first entry named `key`, or adds one at the end.
proof fn lemma_set_at(env: Seq<(Seq<char>, Seq<char>)>, key: Seq<char>, value: Seq<char>, i: int)
    requires
        0 <= i <= env.len(),
        forall|j: int| 0 <= j < i ==> env[j].0 != key,
        i < env.len() ==> env[i].0 == key,
    ensures
        i < env.len() ==> env_set(env, key, value) == env.update(i, (key, value)),
        i == env.len() ==> env_set(env, key, value) == env.push((key, value)),
    decreases i,
{
    if env.len() == 0 {
        assert(env_set(env, key, value) =~= env.push((key, value)));
    } else if i == 0 {
        assert(env_set(env, key, value) =~= env.update(0, (key, value)));
    } else {
        let rest = env.skip(1);
        assert forall|j: int| 0 <= j < i - 1 implies rest[j].0 != key by {
            assert(rest[j] == env[j + 1]);
        }
        if i < env.len() {
            assert(rest[i - 1] == env[i]);
        }
        lemma_set_at(rest, key, value, i - 1);
        assert(env[0].0 != key);
        if i < env.len() {
            assert(seq![env[0]] + rest.update(i - 1, (key, value)) =~= env.update(i, (key, value)));
        } else {
            assert(seq![env[0]] + rest.push((key, value)) =~= env.push((key, value)));
        }
    }
}

/// The value of the first entry of `env` named `key`, if there is one.
pub fn find(env: &Vec<(String, String)>, key: &str) -> (value: Option<String>)
    ensures
        match value {
            Some(value) => env_find(env_view(env@), key@) == Some(value@),
            None => env_find(env_view(env@), key@) is None,
        },
{
    let name = key.to_owned();
    let ghost all = env_view(env@);
    let mut i: usize = 0;
    while i < env.len()
        invariant
            i <= env.len(),
            all == env_view(env@),
            name@ == key@,
            forall|j: int| 0 <= j < i ==> all[j].0 != key@,
        decreases env.len() - i,
    {
        assert(all[i as int] == (env@[i as int].0@, env@[i as int].1@));
        if env[i].0 == name {
            proof {
                lemma_find_from(all, key@, i as int);
                assert(all.skip(i as int)[0] == all[i as int]);
            }
            return Some(env[i].1.clone());
        }
        i = i + 1;
    }
    proof {
        lemma_find_from(all, key@, i as int);
        assert(all.skip(i as int).len() == 0);
    }
    None
}

/// The value of the variable `key`, `default` if it is not set.
pub fn get_or(env: &Vec<(String, String)>, key: &str, default: &str) -> (value: String)
    ensures
        value@ == env_or(env_view(env@), key@, default@),
{
    match find(env, key) {
        Some(value) => value,
        None => default.to_owned(),
    }
}

/// Sets the variable `key` to `value`.
pub fn set(env: &mut Vec<(String, String)>, key: &str, value: String)
    ensures
        env_view(final(env)@) == env_set(env_view(old(env)@), key@, value@),
{
    let name = key.to_owned();
    let ghost all = env_view(env@);
    let mut i: usize = 0;
    while i < env.len()
        invariant
            i <= env.len(),
            env@ == old(env)@,
            all == env_view(env@),
            name@ == key@,
            forall|j: int| 0 <= j < i ==> all[j].0 != key@,
        decreases env.len() - i,
    {
        assert(all[i as int] == (env@[i as int].0@, env@[i as int].1@));
        if env[i].0 == name {
            proof {
                lemma_set_at(all, key@, value@, i as int);
            }
            env[i] = (name, value);
            assert(env_view(env@) =~= all.update(i as int, (key@, value@)));
            return ;
        }
        i = i + 1;
    }
    proof {
        lemma_set_at(all, key@, value@, i as int);
    }
    env.push((name, value));
    assert(env_view(env@) =~= all.push((key@, value@)));
}

} // verus!
