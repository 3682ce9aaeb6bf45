//! Definitions of outside command line tools: the built-in list, the user's
//! own list merged on top of it, and the upsert of one definition into the
//! user's list, which is kept sorted by name.

use std::collections::BTreeMap;
use vstd::prelude::*;
use vstd::string::*;
use crate::auth::{home_file_of, home_file_path, PathStyle};
use crate::text::chars_of;

verus! {

broadcast use vstd::seq_lib::group_to_multiset_ensures;

/// The definition of one outside command line tool.
#[derive(Debug)]
pub struct ExternalCli {
    /// The name the tool is known by; definitions are matched by it.
    pub name: String,
    /// The program to run.
    pub binary: String,
    /// What the tool does.
    pub description: String,
    /// Where the tool is documented.
    pub homepage: Option<String>,
    /// Keywords.
    pub tags: Vec<String>,
    /// Install commands, keyed by platform (one per platform).
    pub install: BTreeMap<String, String>,
}

/// Return the path to the user's external-clis.yaml override file under
/// the home directory `home`: `<home>/.autocli/external-clis.yaml` with the
/// platform's separators.
pub fn user_external_clis_path(home: &str, style: PathStyle) -> (r: Option<String>)
    ensures
        r matches Some(p) ==> home_file_of(home@, ".autocli"@, "external-clis.yaml"@, style) == Some(p@),
        r is None ==> home_file_of(home@, ".autocli"@, "external-clis.yaml"@, style) is None,
{
    proof {
        reveal_strlit(".autocli");
        reveal_strlit("external-clis.yaml");
    }
    home_file_path(home, ".autocli", "external-clis.yaml", style)
}

// ---------------------------------------------------------------------
// Finding and replacing by name
// ---------------------------------------------------------------------

/// Whether some definition in `s` is named `name`.
pub open spec fn has_name(s: Seq<ExternalCli>, name: Seq<char>) -> bool {
    exists|i: int| 0 <= i < s.len() && #[trigger] s[i].name@ == name
}

/// Whether `i` is the index of the first definition in `s` named `name`.
pub open spec fn first_named(s: Seq<ExternalCli>, name: Seq<char>, i: int) -> bool {
    &&& 0 <= i < s.len()
    &&& s[i].name@ == name
    &&& forall|j: int| 0 <= j < i ==> #[trigger] s[j].name@ != name
}

/// `s` with its first definition named like `c` replaced by `c`, or with `c`
/// added at the end when no definition has that name.
pub open spec fn replace_or_push(s: Seq<ExternalCli>, c: ExternalCli) -> Seq<ExternalCli> {
    if has_name(s, c.name@) {
        s.update(choose|i: int| first_named(s, c.name@, i), c)
    } else {
        s.push(c)
    }
}

proof fn lemma_has_name_first(s: Seq<ExternalCli>, name: Seq<char>)
    requires
        has_name(s, name),
    ensures
        exists|i: int| first_named(s, name, i),
    decreases s.len(),
{
    if s[0].name@ == name {
        assert(first_named(s, name, 0));
    } else {
        let w: int = choose|i: int| 0 <= i < s.len() && #[trigger] s[i].name@ == name;
        assert(s.skip(1)[w - 1].name@ == name);
        lemma_has_name_first(s.skip(1), name);
        let i: int = choose|i: int| first_named(s.skip(1), name, i);
        assert forall|j: int| 0 <= j < i + 1 implies #[trigger] s[j].name@ != name by {
            if j > 0 {
                assert(s[j] == s.skip(1)[j - 1]);
            }
        }
        assert(first_named(s, name, i + 1));
    }
}

proof fn lemma_first_named_unique(s: Seq<ExternalCli>, name: Seq<char>, i: int, k: int)
    requires
        first_named(s, name, i),
        first_named(s, name, k),
    ensures
        i == k,
{
    if i < k {
        assert(s[i].name@ != name);
    }
    if k < i {
        assert(s[k].name@ != name);
    }
}

proof fn lemma_replace_or_push_at(s: Seq<ExternalCli>, c: ExternalCli, i: int)
    requires
        first_named(s, c.name@, i),
    ensures
        replace_or_push(s, c) == s.update(i, c),
{
    assert(has_name(s, c.name@));
    let k: int = choose|k: int| first_named(s, c.name@, k);
    lemma_first_named_unique(s, c.name@, i, k);
}

/// The index of the first definition in `v` named `name`, if any.
pub fn position_named(v: &Vec<ExternalCli>, name: &String) -> (r: Option<usize>)
    ensures
        match r {
            Some(i) => first_named(v@, name@, i as int),
            None => !has_name(v@, name@),
        },
{
    let mut i: usize = 0;
    while i < v.len()
        invariant
            0 <= i <= v.len(),
            forall|j: int| 0 <= j < i ==> #[trigger] v@[j].name@ != name@,
        decreases v.len() - i,
    {
        if v[i].name == *name {
            return Some(i);
        }
        i += 1;
    }
    None
}

/// Replaces the first definition named like `cli` by `cli`, or adds `cli`
/// at the end; returns whether one was replaced.
pub fn replace_or_push_cli(clis: &mut Vec<ExternalCli>, cli: ExternalCli) -> (replaced: bool)
    ensures
        final(clis)@ == replace_or_push(old(clis)@, cli),
        replaced == has_name(old(clis)@, cli.name@),
{
    match position_named(clis, &cli.name) {
        Some(pos) => {
            proof {
                lemma_replace_or_push_at(clis@, cli, pos as int);
            }
            clis.set(pos, cli);
            true
        },
        None => {
            clis.push(cli);
            false
        },
    }
}

// ---------------------------------------------------------------------
// Merging the user's definitions over the built-in ones
// ---------------------------------------------------------------------

/// The built-in definitions `builtin` with the user's definitions `user`
/// applied one after the other by `replace_or_push`.
pub open spec fn merged_clis(builtin: Seq<ExternalCli>, user: Seq<ExternalCli>) -> Seq<ExternalCli>
    decreases user.len(),
{
    if user.len() == 0 {
        builtin
    } else {
        replace_or_push(merged_clis(builtin, user.drop_last()), user.last())
    }
}

/// Merges user definitions on top of the built-in ones: if a user defines a
/// CLI with the same `name` as a builtin one, the user version wins.
pub fn merge_external_clis(builtin: Vec<ExternalCli>, user: Vec<ExternalCli>) -> (r: Vec<
    ExternalCli,
>)
    ensures
        r@ == merged_clis(builtin@, user@),
{
    let ghost b = builtin@;
    let ghost us = user@;
    let mut clis = builtin;
    for u in it: user
        invariant
            it.seq() == us,
            clis@ == merged_clis(b, us.take(it.index() as int)),
    {
        proof {
            let n: int = it.index() as int;
            assert(us.take(n + 1).drop_last() =~= us.take(n));
            assert(us.take(n + 1).last() == u);
        }
        replace_or_push_cli(&mut clis, u);
    }
    assert(us.take(us.len() as int) =~= us);
    clis
}


// ---------------------------------------------------------------------
// What merging keeps
// ---------------------------------------------------------------------

proof fn lemma_replace_or_push_keeps_other_names(s: Seq<ExternalCli>, c: ExternalCli, i: int)
    requires
        0 <= i < s.len(),
        s[i].name@ != c.name@,
    ensures
        replace_or_push(s, c).len() >= s.len(),
        replace_or_push(s, c)[i] == s[i],
{
    if has_name(s, c.name@) {
        lemma_has_name_first(s, c.name@);
        let k: int = choose|k: int| first_named(s, c.name@, k);
        assert(first_named(s, c.name@, k));
    }
}

/// After `replace_or_push(s, c)`, `c` is the first definition with its name,
/// and the first definition of every other name is where it was.
proof fn lemma_replace_or_push_first_named(s: Seq<ExternalCli>, c: ExternalCli)
    ensures
        exists|i: int| first_named(replace_or_push(s, c), c.name@, i) && replace_or_push(s, c)[i] == c,
        forall|name: Seq<char>, i: int|
            name != c.name@ && #[trigger] first_named(s, name, i) ==> first_named(
                replace_or_push(s, c),
                name,
                i,
            ),
{
    let t = replace_or_push(s, c);
    if has_name(s, c.name@) {
        lemma_has_name_first(s, c.name@);
        let k: int = choose|k: int| first_named(s, c.name@, k);
        assert(first_named(s, c.name@, k));
        assert(first_named(t, c.name@, k));
    } else {
        assert(first_named(t, c.name@, s.len() as int));
    }
}

/// Law (the user version wins): after merging, for each name that some user
/// definition carries, the first definition with that name is the last user
/// definition with that name.
pub proof fn lemma_merge_user_wins(builtin: Seq<ExternalCli>, user: Seq<ExternalCli>, k: int)
    requires
        0 <= k < user.len(),
        forall|j: int| k < j < user.len() ==> #[trigger] user[j].name@ != user[k].name@,
    ensures
        exists|i: int|
            first_named(merged_clis(builtin, user), user[k].name@, i) && #[trigger] merged_clis(
                builtin,
                user,
            )[i] == user[k],
    decreases user.len(),
{
    let prev = merged_clis(builtin, user.drop_last());
    lemma_replace_or_push_first_named(prev, user.last());
    if k < user.len() - 1 {
        assert forall|j: int| k < j < user.drop_last().len() implies #[trigger] user.drop_last()[j].name@
            != user.drop_last()[k].name@ by {
            assert(user[j].name@ != user[k].name@);
        }
        lemma_merge_user_wins(builtin, user.drop_last(), k);
        let i: int = choose|i: int| first_named(prev, user[k].name@, i) && prev[i] == user[k];
        assert(user.last().name@ != user[k].name@);
        lemma_replace_or_push_keeps_other_names(prev, user.last(), i);
        assert(merged_clis(builtin, user) == replace_or_push(prev, user.last()));
        assert(merged_clis(builtin, user)[i] == user[k]);
        assert(first_named(merged_clis(builtin, user), user[k].name@, i));
    } else {
        let t = replace_or_push(prev, user.last());
        let i: int = choose|i: int| first_named(t, user.last().name@, i) && t[i] == user.last();
        assert(merged_clis(builtin, user) == t);
        assert(merged_clis(builtin, user)[i] == user[k]);
    }
}

/// Law (built-in definitions stay): merging keeps every built-in definition
/// whose name no user definition carries, at its place.
pub proof fn lemma_merge_keeps_builtin(builtin: Seq<ExternalCli>, user: Seq<ExternalCli>, i: int)
    requires
        0 <= i < builtin.len(),
        forall|j: int| 0 <= j < user.len() ==> #[trigger] user[j].name@ != builtin[i].name@,
    ensures
        merged_clis(builtin, user).len() >= builtin.len(),
        merged_clis(builtin, user)[i] == builtin[i],
    decreases user.len(),
{
    if user.len() > 0 {
        assert forall|j: int| 0 <= j < user.drop_last().len() implies #[trigger] user.drop_last()[j].name@
            != builtin[i].name@ by {
            assert(user[j].name@ != builtin[i].name@);
        }
        lemma_merge_keeps_builtin(builtin, user.drop_last(), i);
        assert(user.last().name@ != builtin[i].name@);
        lemma_replace_or_push_keeps_other_names(merged_clis(builtin, user.drop_last()), user.last(), i);
    }
}

// ---------------------------------------------------------------------
// Ordering by name
// ---------------------------------------------------------------------

/// Whether `a` comes strictly before `b`, comparing characters by code point
/// (which is how `String::cmp` orders, as it compares UTF-8 bytes).
pub open spec fn name_lt(a: Seq<char>, b: Seq<char>) -> bool
    decreases a.len(),
{
    if b.len() == 0 {
        false
    } else if a.len() == 0 {
        true
    } else if a[0] != b[0] {
        (a[0] as u32) < (b[0] as u32)
    } else {
        name_lt(a.skip(1), b.skip(1))
    }
}

proof fn lemma_name_lt_irreflexive(a: Seq<char>)
    ensures
        !name_lt(a, a),
    decreases a.len(),
{
    if a.len() > 0 {
        lemma_name_lt_irreflexive(a.skip(1));
    }
}

proof fn lemma_name_lt_transitive(a: Seq<char>, b: Seq<char>, c: Seq<char>)
    requires
        name_lt(a, b),
        name_lt(b, c),
    ensures
        name_lt(a, c),
    decreases a.len(),
{
    if a.len() > 0 && b.len() > 0 && c.len() > 0 && a[0] == b[0] && b[0] == c[0] {
        lemma_name_lt_transitive(a.skip(1), b.skip(1), c.skip(1));
    } else if a.len() > 0 && c.len() > 0 {
        let x: u32 = a[0] as u32;
        let y: u32 = b[0] as u32;
        let z: u32 = c[0] as u32;
        assert(x <= y && y <= z);
        if x == z {
            assert(a[0] == c[0]);
            assert(a[0] == b[0]);
        }
    }
}

/// Whether `a` and `b` agree on their first `k` characters and then `a`
/// comes first: it ends there while `b` goes on, or its next character has
/// the smaller code point.
pub open spec fn differs_first_at(a: Seq<char>, b: Seq<char>, k: int) -> bool {
    &&& 0 <= k <= a.len()
    &&& k <= b.len()
    &&& a.take(k) == b.take(k)
    &&& ((k == a.len() && k < b.len()) || (k < a.len() && k < b.len() && (a[k] as u32) < (
    b[k] as u32)))
}

/// Law: the name order is the lexicographic order by code point: `a` comes
/// before `b` exactly when, after a common prefix, `a` ends while `b` goes
/// on, or `a`'s next character has the smaller code point.
pub proof fn lemma_name_lt_lexicographic(a: Seq<char>, b: Seq<char>)
    ensures
        name_lt(a, b) <==> exists|k: int| #[trigger] differs_first_at(a, b, k),
    decreases a.len(),
{
    if b.len() == 0 {
        assert forall|k: int| !differs_first_at(a, b, k) by {}
    } else if a.len() == 0 {
        assert(a.take(0) =~= b.take(0));
        assert(differs_first_at(a, b, 0));
    } else if a[0] != b[0] {
        assert forall|k: int| #[trigger] differs_first_at(a, b, k) implies k == 0 by {
            if k > 0 {
                assert(a.take(k)[0] == b.take(k)[0]);
            }
        }
        assert(a.take(0) =~= b.take(0));
        if name_lt(a, b) {
            assert(differs_first_at(a, b, 0));
        }
    } else {
        let (x, y) = (a.skip(1), b.skip(1));
        lemma_name_lt_lexicographic(x, y);
        if name_lt(a, b) {
            let k: int = choose|k: int| #[trigger] differs_first_at(x, y, k);
            assert(a.take(k + 1) =~= seq![a[0]] + x.take(k));
            assert(b.take(k + 1) =~= seq![b[0]] + y.take(k));
            assert(differs_first_at(a, b, k + 1));
        }
        if exists|k: int| #[trigger] differs_first_at(a, b, k) {
            let k: int = choose|k: int| #[trigger] differs_first_at(a, b, k);
            assert(k > 0) by {
                if k == 0 {
                    assert(a.len() > 0 && b.len() > 0);
                }
            }
            assert(x.take(k - 1) =~= a.take(k).skip(1));
            assert(y.take(k - 1) =~= b.take(k).skip(1));
            assert(differs_first_at(x, y, k - 1));
        }
    }
}

/// Law: a common prefix does not change the order of two names.
pub proof fn lemma_name_lt_common_prefix(p: Seq<char>, x: Seq<char>, y: Seq<char>)
    ensures
        name_lt(p + x, p + y) == name_lt(x, y),
    decreases p.len(),
{
    if p.len() > 0 {
        lemma_name_lt_common_prefix(p.skip(1), x, y);
        assert((p + x).skip(1) =~= p.skip(1) + x);
        assert((p + y).skip(1) =~= p.skip(1) + y);
    } else {
        assert(p + x =~= x);
        assert(p + y =~= y);
    }
}

/// Whether `a` comes strictly before `b` (see `name_lt`).
pub fn name_less(a: &String, b: &String) -> (r: bool)
    ensures
        r == name_lt(a@, b@),
{
    let x = chars_of(a.as_str());
    let y = chars_of(b.as_str());
    let mut k: usize = 0;
    assert(x@.skip(0) =~= x@);
    assert(y@.skip(0) =~= y@);
    while k < x.len() && k < y.len() && x[k] == y[k]
        invariant
            x@ == a@,
            y@ == b@,
            0 <= k <= x.len(),
            k <= y.len(),
            name_lt(a@, b@) == name_lt(x@.skip(k as int), y@.skip(k as int)),
        decreases x.len() - k,
    {
        assert(x@.skip(k as int).skip(1) =~= x@.skip(k + 1));
        assert(y@.skip(k as int).skip(1) =~= y@.skip(k + 1));
        k += 1;
    }
    if k == y.len() {
        false
    } else if k == x.len() {
        true
    } else {
        (x[k] as u32) < (y[k] as u32)
    }
}

/// Where a definition with name `key` goes in `s` when inserted after every
/// definition whose name is not greater: the first index whose name is
/// greater than `key`, or the end.
pub open spec fn insertion_index(s: Seq<ExternalCli>, key: Seq<char>) -> int
    decreases s.len(),
{
    if s.len() == 0 {
        0
    } else if name_lt(key, s[0].name@) {
        0
    } else {
        1 + insertion_index(s.skip(1), key)
    }
}

/// `s` sorted by name, stably: definitions with equal names keep their
/// order (as `sort_by` on names gives).
pub open spec fn sorted_by_name(s: Seq<ExternalCli>) -> Seq<ExternalCli>
    decreases s.len(),
{
    if s.len() == 0 {
        seq![]
    } else {
        let t = sorted_by_name(s.drop_last());
        t.insert(insertion_index(t, s.last().name@), s.last())
    }
}

/// Whether the names in `s` never decrease.
pub open spec fn is_sorted_by_name(s: Seq<ExternalCli>) -> bool {
    forall|i: int, j: int| 0 <= i < j < s.len() ==> !name_lt(#[trigger] s[j].name@, #[trigger] s[i].name@)
}

proof fn lemma_insertion_index(s: Seq<ExternalCli>, key: Seq<char>)
    ensures
        0 <= insertion_index(s, key) <= s.len(),
        forall|i: int| 0 <= i < insertion_index(s, key) ==> !name_lt(key, #[trigger] s[i].name@),
        insertion_index(s, key) < s.len() ==> name_lt(key, s[insertion_index(s, key)].name@),
    decreases s.len(),
{
    if s.len() > 0 && !name_lt(key, s[0].name@) {
        lemma_insertion_index(s.skip(1), key);
        assert forall|i: int| 0 <= i < insertion_index(s, key) implies !name_lt(key, #[trigger] s[i].name@) by {
            if i > 0 {
                assert(s[i] == s.skip(1)[i - 1]);
            }
        }
    }
}

/// The sorted sequence holds the same definitions, and its names never
/// decrease.
pub proof fn lemma_sorted_by_name(s: Seq<ExternalCli>)
    ensures
        sorted_by_name(s).to_multiset() == s.to_multiset(),
        is_sorted_by_name(sorted_by_name(s)),
    decreases s.len(),
{
    if s.len() > 0 {
        let t = sorted_by_name(s.drop_last());
        let x = s.last();
        let p: int = insertion_index(t, x.name@);
        lemma_sorted_by_name(s.drop_last());
        lemma_insertion_index(t, x.name@);
        let r = t.insert(p, x);
        assert(s.drop_last().push(x) =~= s);
        assert forall|i: int, j: int| 0 <= i < j < r.len() implies !name_lt(#[trigger] r[j].name@, #[trigger] r[i].name@) by {
            if j < p {
                assert(r[i] == t[i] && r[j] == t[j]);
            } else if j == p {
                assert(r[i] == t[i]);
            } else if i == p {
                assert(r[j] == t[j - 1]);
                lemma_name_lt_irreflexive(t[p].name@);
                if j - 1 > p {
                    assert(!name_lt(t[j - 1].name@, t[p].name@));
                }
                if name_lt(t[j - 1].name@, x.name@) {
                    lemma_name_lt_transitive(t[j - 1].name@, x.name@, t[p].name@);
                }
            } else if i < p {
                assert(r[i] == t[i] && r[j] == t[j - 1]);
            } else {
                assert(r[i] == t[i - 1] && r[j] == t[j - 1]);
            }
        }
    }
}

/// Inserts `x` into the name-sorted `v` after every definition whose name is
/// not greater.
fn insert_by_name(v: &mut Vec<ExternalCli>, x: ExternalCli)
    ensures
        final(v)@ == old(v)@.insert(insertion_index(old(v)@, x.name@), x),
{
    let ghost s = v@;
    let mut k: usize = 0;
    assert(s.skip(0) =~= s);
    while k < v.len() && !name_less(&x.name, &v[k].name)
        invariant
            0 <= k <= v.len(),
            v@ == s,
            insertion_index(s, x.name@) == k + insertion_index(s.skip(k as int), x.name@),
        decreases v.len() - k,
    {
        assert(s.skip(k as int).skip(1) =~= s.skip(k + 1));
        k += 1;
    }
    v.insert(k, x);
}

/// Sorts `clis` by name, stably.
pub fn sort_by_name(clis: Vec<ExternalCli>) -> (r: Vec<ExternalCli>)
    ensures
        r@ == sorted_by_name(clis@),
{
    let ghost s = clis@;
    let mut r: Vec<ExternalCli> = Vec::new();
    for x in it: clis
        invariant
            it.seq() == s,
            r@ == sorted_by_name(s.take(it.index() as int)),
    {
        proof {
            let n: int = it.index() as int;
            assert(s.take(n + 1).drop_last() =~= s.take(n));
            assert(s.take(n + 1).last() == x);
        }
        insert_by_name(&mut r, x);
    }
    assert(s.take(s.len() as int) =~= s);
    r
}

/// The user's definitions after upserting `cli` into `clis`: the first
/// definition named like `cli` replaced by it, or `cli` added, then sorted
/// by name.
pub open spec fn upserted(clis: Seq<ExternalCli>, cli: ExternalCli) -> Seq<ExternalCli> {
    sorted_by_name(replace_or_push(clis, cli))
}

/// Upserts `cli` into the user's definitions `clis`: replaces the first
/// definition with the same name, or adds it, and sorts the list by name.
/// Returns the new list and whether a definition was replaced.
pub fn upsert_external_cli(clis: Vec<ExternalCli>, cli: ExternalCli) -> (r: (Vec<ExternalCli>, bool))
    ensures
        r.0@ == upserted(clis@, cli),
        r.1 == has_name(clis@, cli.name@),
{
    let mut clis = clis;
    let updated = replace_or_push_cli(&mut clis, cli);
    (sort_by_name(clis), updated)
}

/// Law: after an upsert the list is sorted by name, holds the upserted
/// definition, and holds the same definitions as before apart from the one
/// it replaced; its length grows by one exactly when nothing was replaced.
pub proof fn lemma_upsert_properties(clis: Seq<ExternalCli>, cli: ExternalCli)
    ensures
        is_sorted_by_name(upserted(clis, cli)),
        upserted(clis, cli).to_multiset().count(cli) >= 1,
        has_name(clis, cli.name@) ==> upserted(clis, cli).len() == clis.len(),
        !has_name(clis, cli.name@) ==> upserted(clis, cli).len() == clis.len() + 1
            && upserted(clis, cli).to_multiset() == clis.to_multiset().insert(cli),
        forall|i: int|
            0 <= i < clis.len() && #[trigger] clis[i].name@ != cli.name@ ==> upserted(
                clis,
                cli,
            ).to_multiset().count(clis[i]) >= 1,
{
    broadcast use vstd::multiset::group_multiset_axioms;
    let m = replace_or_push(clis, cli);
    lemma_sorted_by_name(m);
    let t = upserted(clis, cli);
    assert(t.to_multiset().len() == t.len());
    assert(m.to_multiset().len() == m.len());
    if has_name(clis, cli.name@) {
        lemma_has_name_first(clis, cli.name@);
        let k: int = choose|k: int| first_named(clis, cli.name@, k);
        assert(first_named(clis, cli.name@, k));
        assert(m.to_multiset().contains(cli)) by {
            assert(m[k] == cli);
        }
        assert forall|i: int| 0 <= i < clis.len() && #[trigger] clis[i].name@ != cli.name@ implies t.to_multiset().count(clis[i]) >= 1 by {
            assert(m[i] == clis[i]);
            assert(m.to_multiset().contains(clis[i]));
        }
    } else {
        assert(m == clis.push(cli));
        assert forall|i: int| 0 <= i < clis.len() && #[trigger] clis[i].name@ != cli.name@ implies t.to_multiset().count(clis[i]) >= 1 by {
            assert(m[i] == clis[i]);
            assert(m.to_multiset().contains(clis[i]));
        }
    }
}


proof fn lemma_insertion_index_at_end(s: Seq<ExternalCli>, key: Seq<char>)
    requires
        forall|i: int| 0 <= i < s.len() ==> !name_lt(key, #[trigger] s[i].name@),
    ensures
        insertion_index(s, key) == s.len(),
    decreases s.len(),
{
    if s.len() > 0 {
        assert(!name_lt(key, s[0].name@));
        assert forall|i: int| 0 <= i < s.skip(1).len() implies !name_lt(key, #[trigger] s.skip(1)[i].name@) by {
            assert(s.skip(1)[i] == s[i + 1]);
        }
        lemma_insertion_index_at_end(s.skip(1), key);
    }
}

/// Sorting a sequence whose names never decrease leaves it as it is.
pub proof fn lemma_sorted_by_name_of_sorted(s: Seq<ExternalCli>)
    requires
        is_sorted_by_name(s),
    ensures
        sorted_by_name(s) == s,
    decreases s.len(),
{
    if s.len() > 0 {
        let p = s.drop_last();
        assert(is_sorted_by_name(p)) by {
            assert forall|i: int, j: int| 0 <= i < j < p.len() implies !name_lt(#[trigger] p[j].name@, #[trigger] p[i].name@) by {
                assert(p[i] == s[i] && p[j] == s[j]);
            }
        }
        lemma_sorted_by_name_of_sorted(p);
        assert forall|i: int| 0 <= i < p.len() implies !name_lt(s.last().name@, #[trigger] p[i].name@) by {
            assert(p[i] == s[i]);
        }
        lemma_insertion_index_at_end(p, s.last().name@);
        assert(p.insert(p.len() as int, s.last()) =~= s);
    }
}

/// Sorting keeps, for every name, the first definition with that name first
/// among those with that name (the sort is stable).
pub proof fn lemma_sorted_keeps_first_named(s: Seq<ExternalCli>, name: Seq<char>, k: int)
    requires
        first_named(s, name, k),
    ensures
        exists|i: int| first_named(sorted_by_name(s), name, i) && #[trigger] sorted_by_name(s)[i] == s[k],
    decreases s.len(),
{
    let d = s.drop_last();
    let x = s.last();
    let t = sorted_by_name(d);
    let p: int = insertion_index(t, x.name@);
    let r = sorted_by_name(s);
    lemma_insertion_index(t, x.name@);
    lemma_sorted_by_name(d);
    assert(r == t.insert(p, x));
    if k < s.len() - 1 {
        assert(first_named(d, name, k)) by {
            assert forall|j: int| 0 <= j < k implies #[trigger] d[j].name@ != name by {
                assert(d[j] == s[j]);
            }
        }
        lemma_sorted_keeps_first_named(d, name, k);
        let i: int = choose|i: int| first_named(t, name, i) && t[i] == d[k];
        if x.name@ == name {
            // `x` goes after every definition whose name is not greater.
            if p <= i {
                assert(!name_lt(t[i].name@, t[p].name@) || p == i);
                lemma_name_lt_irreflexive(name);
            }
            assert(p > i);
            assert(r[i] == t[i]);
            assert forall|j: int| 0 <= j < i implies #[trigger] r[j].name@ != name by {
                assert(r[j] == t[j]);
            }
            assert(first_named(r, name, i));
        } else {
            if p <= i {
                assert(r[i + 1] == t[i]);
                assert forall|j: int| 0 <= j < i + 1 implies #[trigger] r[j].name@ != name by {
                    if j < p {
                        assert(r[j] == t[j]);
                    } else if j > p {
                        assert(r[j] == t[j - 1]);
                    }
                }
                assert(first_named(r, name, i + 1));
            } else {
                assert(r[i] == t[i]);
                assert forall|j: int| 0 <= j < i implies #[trigger] r[j].name@ != name by {
                    assert(r[j] == t[j]);
                }
                assert(first_named(r, name, i));
            }
        }
    } else {
        // `x` is the first definition named `name`; `t` holds none.
        assert(d.to_multiset() == t.to_multiset());
        assert forall|j: int| 0 <= j < t.len() implies #[trigger] t[j].name@ != name by {
            broadcast use vstd::seq_lib::to_multiset_contains;
            assert(t.contains(t[j]));
            assert(t.to_multiset().count(t[j]) > 0);
            assert(d.contains(t[j]));
            let w: int = choose|w: int| 0 <= w < d.len() && d[w] == t[j];
            assert(d[w] == s[w]);
        }
        assert(r[p] == x);
        assert forall|j: int| 0 <= j < p implies #[trigger] r[j].name@ != name by {
            assert(r[j] == t[j]);
        }
        assert(first_named(r, name, p));
    }
}

/// Law: upserting the same definition twice gives what upserting it once
/// gave, and the second upsert reports a replacement.
pub proof fn lemma_upsert_idempotent(clis: Seq<ExternalCli>, cli: ExternalCli)
    ensures
        has_name(upserted(clis, cli), cli.name@),
        upserted(upserted(clis, cli), cli) == upserted(clis, cli),
{
    let m = replace_or_push(clis, cli);
    let t = upserted(clis, cli);
    lemma_sorted_by_name(m);
    lemma_replace_or_push_first_named(clis, cli);
    let k: int = choose|k: int| first_named(m, cli.name@, k) && m[k] == cli;
    lemma_sorted_keeps_first_named(m, cli.name@, k);
    let i: int = choose|i: int| first_named(t, cli.name@, i) && t[i] == m[k];
    assert(has_name(t, cli.name@));
    lemma_replace_or_push_at(t, cli, i);
    assert(t.update(i, cli) =~= t);
    lemma_sorted_by_name_of_sorted(t);
}

} // verus!
