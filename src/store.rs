//! The weapon store: every loaded weapon keyed by name, the weapons of each
//! class, and each weapon's innate poise.

use vstd::prelude::*;

use crate::attack::Attacks;
use crate::damage::PoiseDamageValues;
use crate::moveset::{deref_damage, WeaponPoiseDamage};
use crate::multiplier::{scaled_sequence, Multiplier, PoiseDamage};
use crate::text::{
    lemma_text_less_irreflexive, lemma_text_less_total, lemma_text_less_transitive, text_less,
    text_lt,
};

verus! {

/// The last weapon of `ws` named `n`, if any: the one that stands for the
/// name when later rows replace earlier ones.
pub open spec fn named(ws: Seq<WeaponPoiseDamage>, n: Seq<char>) -> Option<WeaponPoiseDamage>
    decreases ws.len(),
{
    if ws.len() == 0 {
        None
    } else if ws.last().name@ == n {
        Some(ws.last())
    } else {
        named(ws.drop_last(), n)
    }
}

/// Weapons in strictly increasing order of name, so no name twice.
pub open spec fn sorted_by_name(ws: Seq<WeaponPoiseDamage>) -> bool {
    forall|i: int, j: int| 0 <= i < j < ws.len() ==> text_less(#[trigger] ws[i].name@, #[trigger] ws[j].name@)
}

proof fn lemma_less_differs(a: Seq<char>, b: Seq<char>)
    requires
        text_less(a, b),
    ensures
        a != b,
{
    lemma_text_less_irreflexive(a);
}

/// No weapon of `ws` is named `n` exactly when nothing is found under `n`.
proof fn lemma_named_none(ws: Seq<WeaponPoiseDamage>, n: Seq<char>)
    ensures
        named(ws, n) is None <==> forall|k: int| 0 <= k < ws.len() ==> (#[trigger] ws[k]).name@ != n,
        named(ws, n) matches Some(w) ==> w.name@ == n,
    decreases ws.len(),
{
    if ws.len() > 0 {
        lemma_named_none(ws.drop_last(), n);
        assert(ws.last() == ws[ws.len() - 1]);
        assert forall|k: int| 0 <= k < ws.len() - 1 implies #[trigger] ws.drop_last()[k] == ws[k] by {}
        if ws.last().name@ != n {
            if named(ws, n) is None {
                assert forall|k: int| 0 <= k < ws.len() implies (#[trigger] ws[k]).name@ != n by {
                    if k < ws.len() - 1 {
                        assert(ws.drop_last()[k] == ws[k]);
                    }
                }
            }
        }
    }
}

/// What is found under `n` is the last weapon with that name.
proof fn lemma_named_at(ws: Seq<WeaponPoiseDamage>, n: Seq<char>, k: int)
    requires
        0 <= k < ws.len(),
        ws[k].name@ == n,
        forall|j: int| k < j < ws.len() ==> (#[trigger] ws[j]).name@ != n,
    ensures
        named(ws, n) == Some(ws[k]),
    decreases ws.len(),
{
    if k < ws.len() - 1 {
        assert(ws.last() == ws[ws.len() - 1]);
        lemma_named_at(ws.drop_last(), n, k);
    }
}

/// What is found under `n` depends only on the weapons named `n`.
proof fn lemma_named_congruent(s: Seq<WeaponPoiseDamage>, t: Seq<WeaponPoiseDamage>, n: Seq<char>)
    requires
        s.len() == t.len(),
        forall|k: int|
            0 <= k < s.len() ==> ((#[trigger] s[k]).name@ == n || t[k].name@ == n ==> s[k] == t[k]),
        forall|k: int|
            0 <= k < s.len() ==> ((#[trigger] s[k]).name@ == n <==> t[k].name@ == n),
    ensures
        named(s, n) == named(t, n),
    decreases s.len(),
{
    if s.len() > 0 {
        assert(s.last() == s[s.len() - 1]);
        assert(t.last() == t[t.len() - 1]);
        let s2 = s.drop_last();
        let t2 = t.drop_last();
        assert forall|k: int| 0 <= k < s2.len() implies ((#[trigger] s2[k]).name@ == n || t2[k].name@
            == n ==> s2[k] == t2[k]) by {
            assert(s2[k] == s[k] && t2[k] == t[k]);
        }
        assert forall|k: int| 0 <= k < s2.len() implies ((#[trigger] s2[k]).name@ == n <==> t2[k].name@
            == n) by {
            assert(s2[k] == s[k] && t2[k] == t[k]);
        }
        lemma_named_congruent(s2, t2, n);
    }
}

/// Inserting a weapon of another name changes nothing found under `n`.
proof fn lemma_named_insert_other(
    s: Seq<WeaponPoiseDamage>,
    p: int,
    w: WeaponPoiseDamage,
    n: Seq<char>,
)
    requires
        0 <= p <= s.len(),
        w.name@ != n,
    ensures
        named(s.insert(p, w), n) == named(s, n),
    decreases s.len(),
{
    let t = s.insert(p, w);
    if p == s.len() {
        assert(t.drop_last() =~= s);
    } else {
        assert(t.drop_last() =~= s.drop_last().insert(p, w));
        assert(t.last() == s.last());
        lemma_named_insert_other(s.drop_last(), p, w, n);
    }
}

/// Adds `w` to a store ordered by name, in place of any weapon of the same name.
fn insert_weapon(ws: &mut Vec<WeaponPoiseDamage>, w: WeaponPoiseDamage)
    requires
        sorted_by_name(old(ws)@),
    ensures
        sorted_by_name(final(ws)@),
        forall|n: Seq<char>|
            #![trigger named(final(ws)@, n)]
            named(final(ws)@, n) == if n == w.name@ {
                Some(w)
            } else {
                named(old(ws)@, n)
            },
{
    let ghost s = ws@;
    let mut p: usize = 0;
    while p < ws.len() && text_lt(ws[p].name.as_str(), w.name.as_str())
        invariant
            ws@ == s,
            p <= ws.len(),
            forall|i: int| 0 <= i < p ==> text_less((#[trigger] s[i]).name@, w.name@),
        decreases ws.len() - p,
    {
        p = p + 1;
    }
    if p < ws.len() && ws[p].name == w.name {
        ws.set(p, w);
        let ghost t = ws@;
        proof {
            assert forall|i: int, j: int| 0 <= i < j < t.len() implies text_less(
                #[trigger] t[i].name@,
                #[trigger] t[j].name@,
            ) by {
                assert(t[i].name@ == s[i].name@ && t[j].name@ == s[j].name@);
            }
            assert forall|n: Seq<char>| #![trigger named(t, n)] named(t, n) == if n == w.name@ {
                Some(w)
            } else {
                named(s, n)
            } by {
                if n == w.name@ {
                    assert forall|j: int| p < j < t.len() implies (#[trigger] t[j]).name@ != n by {
                        lemma_less_differs(s[p as int].name@, s[j].name@);
                    }
                    lemma_named_at(t, n, p as int);
                } else {
                    lemma_named_congruent(s, t, n);
                }
            }
        }
    } else {
        ws.insert(p, w);
        let ghost t = ws@;
        proof {
            if p < s.len() {
                lemma_text_less_total(s[p as int].name@, w.name@);
            }
            assert forall|j: int| p < j < t.len() implies text_less(w.name@, (#[trigger] t[j]).name@) by {
                assert(t[j] == s[j - 1]);
                if j - 1 > p {
                    lemma_text_less_transitive(w.name@, s[p as int].name@, s[j - 1].name@);
                }
            }
            assert forall|i: int, j: int| 0 <= i < j < t.len() implies text_less(
                #[trigger] t[i].name@,
                #[trigger] t[j].name@,
            ) by {
                if j < p {
                    assert(t[i] == s[i] && t[j] == s[j]);
                } else if j == p {
                    assert(t[i] == s[i]);
                } else if i == p {
                } else if i < p {
                    assert(t[i] == s[i]);
                    lemma_text_less_transitive(s[i].name@, w.name@, t[j].name@);
                } else {
                    assert(t[i] == s[i - 1] && t[j] == s[j - 1]);
                }
            }
            assert forall|n: Seq<char>| #![trigger named(t, n)] named(t, n) == if n == w.name@ {
                Some(w)
            } else {
                named(s, n)
            } by {
                if n == w.name@ {
                    assert forall|j: int| p < j < t.len() implies (#[trigger] t[j]).name@ != n by {
                        lemma_less_differs(w.name@, t[j].name@);
                    }
                    lemma_named_at(t, n, p as int);
                } else {
                    lemma_named_insert_other(s, p as int, w, n);
                }
            }
        }
    }
}

/// The innate poise of weapons, by weapon name or by weapon class. A weapon
/// takes the entry of its name if there is one, else that of its class, else
/// none.
pub open spec fn innate_poise_table() -> Seq<(Seq<char>, u16)> {
    seq![
        ("Colossal Weapon"@, 99u16),
        ("Colossal Sword"@, 90u16),
        ("Great Hammer"@, 77u16),
        ("Longhaft Axe"@, 70u16),
        ("Greatsword"@, 59u16),
        ("Curved Greatsword"@, 59u16),
        ("Greataxe"@, 59u16),
        ("Great Spear"@, 59u16),
        ("Heavy Thrusting Sword"@, 59u16),
        ("Hammer"@, 52u16),
        ("Flail"@, 52u16),
        ("Halberd"@, 52u16),
        ("Straight Sword"@, 15u16),
        ("Curved Sword"@, 15u16),
        ("Katana"@, 15u16),
        ("Twinblade"@, 15u16),
        ("Axe"@, 15u16),
        ("Spear"@, 15u16),
        ("Fist"@, 15u16),
        ("Reaper"@, 15u16),
        ("Thrusting Sword"@, 14u16),
        ("Whip"@, 14u16),
        ("Dagger"@, 11u16),
        ("Claw"@, 11u16),
        ("Rakshasa's Great Katana"@, 77u16),
        ("Great Katana"@, 52u16),
        ("Light Greatsword"@, 30u16),
        ("Thrusting Shield"@, 27u16),
        ("Bloodfiend's Sacred Spear"@, 15u16),
        ("Backhand Blade"@, 15u16),
        ("Hand-to-Hand"@, 15u16),
        ("Beast Claw"@, 14u16),
        ("Perfume Bottle"@, 14u16),
        ("Throwing Blade"@, 11u16)
    ]
}

/// The table as text and value.
pub open spec fn table_text(t: Seq<(&str, u16)>) -> Seq<(Seq<char>, u16)> {
    t.map_values(|e: (&str, u16)| (e.0@, e.1))
}

/// The entries of [`innate_poise_table`].
pub fn innate_poise_overrides() -> (r: Vec<(&'static str, u16)>)
    ensures
        table_text(r@) == innate_poise_table(),
{
    let r = vec![
        ("Colossal Weapon", 99u16),
        ("Colossal Sword", 90u16),
        ("Great Hammer", 77u16),
        ("Longhaft Axe", 70u16),
        ("Greatsword", 59u16),
        ("Curved Greatsword", 59u16),
        ("Greataxe", 59u16),
        ("Great Spear", 59u16),
        ("Heavy Thrusting Sword", 59u16),
        ("Hammer", 52u16),
        ("Flail", 52u16),
        ("Halberd", 52u16),
        ("Straight Sword", 15u16),
        ("Curved Sword", 15u16),
        ("Katana", 15u16),
        ("Twinblade", 15u16),
        ("Axe", 15u16),
        ("Spear", 15u16),
        ("Fist", 15u16),
        ("Reaper", 15u16),
        ("Thrusting Sword", 14u16),
        ("Whip", 14u16),
        ("Dagger", 11u16),
        ("Claw", 11u16),
        ("Rakshasa's Great Katana", 77u16),
        ("Great Katana", 52u16),
        ("Light Greatsword", 30u16),
        ("Thrusting Shield", 27u16),
        ("Bloodfiend's Sacred Spear", 15u16),
        ("Backhand Blade", 15u16),
        ("Hand-to-Hand", 15u16),
        ("Beast Claw", 14u16),
        ("Perfume Bottle", 14u16),
        ("Throwing Blade", 11u16)
    ];
    assert(table_text(r@) =~= innate_poise_table());
    r
}

/// The index of the first entry of `t` under `key`.
pub open spec fn first_index(t: Seq<(Seq<char>, u16)>, key: Seq<char>) -> Option<int>
    decreases t.len(),
{
    if t.len() == 0 {
        None
    } else {
        match first_index(t.drop_last(), key) {
            Some(i) => Some(i),
            None => if t.last().0 == key {
                Some(t.len() - 1)
            } else {
                None
            },
        }
    }
}

/// The index of the table entry under `key`.
pub open spec fn override_index(key: Seq<char>) -> Option<int> {
    first_index(innate_poise_table(), key)
}

/// The innate poise of a weapon named `name` of class `class`.
pub open spec fn innate_poise_of(name: Seq<char>, class: Seq<char>) -> u16 {
    match override_index(name) {
        Some(i) => innate_poise_table()[i].1,
        None => match override_index(class) {
            Some(i) => innate_poise_table()[i].1,
            None => 0,
        },
    }
}

/// Whether `w` takes its innate poise from table entry `t`.
pub open spec fn override_used_by(t: int, w: WeaponPoiseDamage) -> bool {
    override_index(w.name@) == Some(t) || (override_index(w.name@) is None && override_index(
        w.class@,
    ) == Some(t))
}

proof fn lemma_first_index(t: Seq<(Seq<char>, u16)>, key: Seq<char>)
    ensures
        first_index(t, key) matches Some(i) ==> 0 <= i < t.len() && t[i].0 == key,
        first_index(t, key) is None ==> forall|i: int| 0 <= i < t.len() ==> (#[trigger] t[i]).0 != key,
    decreases t.len(),
{
    if t.len() > 0 {
        lemma_first_index(t.drop_last(), key);
        assert(t.last() == t[t.len() - 1]);
        assert forall|i: int| 0 <= i < t.len() - 1 implies #[trigger] t.drop_last()[i] == t[i] by {}
        if first_index(t, key) is None {
            assert forall|i: int| 0 <= i < t.len() implies (#[trigger] t[i]).0 != key by {
                if i < t.len() - 1 {
                    assert(t.drop_last()[i] == t[i]);
                }
            }
        }
    }
}

/// Finds the entry of `table` under `key`.
fn override_position(table: &Vec<(&'static str, u16)>, key: &str) -> (r: Option<usize>)
    ensures
        r matches Some(i) ==> i < table.len() && first_index(table_text(table@), key@) == Some(i as int),
        r is None ==> first_index(table_text(table@), key@) is None,
{
    let ghost t = table_text(table@);
    let mut i: usize = 0;
    assert(t.take(0) =~= Seq::<(Seq<char>, u16)>::empty());
    while i < table.len()
        invariant
            i <= table.len(),
            t == table_text(table@),
            first_index(t.take(i as int), key@) is None,
        decreases table.len() - i,
    {
        assert(t.take(i + 1 as int).drop_last() =~= t.take(i as int));
        if crate::text::text_eq(table[i].0, key) {
            proof {
                lemma_first_index_prefix(t, key@, i as int);
            }
            return Some(i);
        }
        i = i + 1;
    }
    assert(t.take(table.len() as int) =~= t);
    None
}

proof fn lemma_first_index_prefix(t: Seq<(Seq<char>, u16)>, key: Seq<char>, i: int)
    requires
        0 <= i < t.len(),
        t[i].0 == key,
        first_index(t.take(i), key) is None,
    ensures
        first_index(t, key) == Some(i),
    decreases t.len(),
{
    if i < t.len() - 1 {
        assert(t.drop_last().take(i) =~= t.take(i));
        lemma_first_index_prefix(t.drop_last(), key, i);
    } else {
        assert(t.drop_last() =~= t.take(i));
    }
}

/// The last weapon of `s` named `n` stands at some index, with no later
/// weapon of that name.
proof fn lemma_named_some(s: Seq<WeaponPoiseDamage>, n: Seq<char>)
    requires
        named(s, n) is Some,
    ensures
        exists|j: int|
            0 <= j < s.len() && s[j] == named(s, n)->Some_0 && s[j].name@ == n && (forall|j2: int|
                j < j2 < s.len() ==> (#[trigger] s[j2]).name@ != n),
    decreases s.len(),
{
    assert(s.last() == s[s.len() - 1]);
    if s.last().name@ == n {
        assert(s[s.len() - 1] == named(s, n)->Some_0);
    } else {
        lemma_named_some(s.drop_last(), n);
        let j = choose|j: int|
            0 <= j < s.drop_last().len() && s.drop_last()[j] == named(s.drop_last(), n)->Some_0
                && s.drop_last()[j].name@ == n && (forall|j2: int|
                j < j2 < s.drop_last().len() ==> (#[trigger] s.drop_last()[j2]).name@ != n);
        assert forall|j2: int| j < j2 < s.len() implies (#[trigger] s[j2]).name@ != n by {
            if j2 < s.len() - 1 {
                assert(s.drop_last()[j2] == s[j2]);
            }
        }
        assert(s[j] == s.drop_last()[j]);
    }
}

/// In a store ordered by name, each weapon is what is found under its name.
proof fn lemma_named_sorted(ws: Seq<WeaponPoiseDamage>, k: int)
    requires
        sorted_by_name(ws),
        0 <= k < ws.len(),
    ensures
        named(ws, ws[k].name@) == Some(ws[k]),
{
    assert forall|j: int| k < j < ws.len() implies (#[trigger] ws[j]).name@ != ws[k].name@ by {
        lemma_less_differs(ws[k].name@, ws[j].name@);
    }
    lemma_named_at(ws, ws[k].name@, k);
}

/// The names of the weapons of class `c` in `ws`, in order.
pub open spec fn class_members(ws: Seq<WeaponPoiseDamage>, c: Seq<char>) -> Seq<Seq<char>>
    decreases ws.len(),
{
    if ws.len() == 0 {
        Seq::empty()
    } else if ws.last().class@ == c {
        class_members(ws.drop_last(), c).push(ws.last().name@)
    } else {
        class_members(ws.drop_last(), c)
    }
}

/// The characters of each name.
pub open spec fn names_text(names: Seq<String>) -> Seq<Seq<char>> {
    names.map_values(|n: String| n@)
}

/// Whether class `c` has an entry in `cs`.
pub open spec fn has_class(cs: Seq<(String, Vec<String>)>, c: Seq<char>) -> bool {
    exists|i: int| 0 <= i < cs.len() && (#[trigger] cs[i]).0@ == c
}

/// Whether `cs` lists every class of `ws` once, in increasing order, each
/// with the names of its weapons in the order of `ws`.
pub open spec fn classes_indexed(ws: Seq<WeaponPoiseDamage>, cs: Seq<(String, Vec<String>)>) -> bool {
    &&& forall|i: int, j: int| 0 <= i < j < cs.len() ==> text_less(#[trigger] cs[i].0@, #[trigger] cs[j].0@)
    &&& forall|i: int|
        0 <= i < cs.len() ==> names_text((#[trigger] cs[i]).1@) == class_members(ws, cs[i].0@)
            && cs[i].1@.len() > 0
    &&& forall|k: int| 0 <= k < ws.len() ==> has_class(cs, (#[trigger] ws[k]).class@)
}

proof fn lemma_class_members_source(ws: Seq<WeaponPoiseDamage>, c: Seq<char>)
    requires
        class_members(ws, c).len() > 0,
    ensures
        exists|j: int| 0 <= j < ws.len() && (#[trigger] ws[j]).class@ == c,
    decreases ws.len(),
{
    assert(ws.last() == ws[ws.len() - 1]);
    if ws.last().class@ != c {
        lemma_class_members_source(ws.drop_last(), c);
        let j = choose|j: int| 0 <= j < ws.drop_last().len() && (#[trigger] ws.drop_last()[j]).class@ == c;
        assert(ws[j] == ws.drop_last()[j]);
    }
}

/// Each name that `class_members` lists is the name of a weapon of `ws`
/// from the same stretch.
proof fn lemma_class_members_named(ws: Seq<WeaponPoiseDamage>, c: Seq<char>, i: int)
    requires
        0 <= i < class_members(ws, c).len(),
    ensures
        exists|k: int| 0 <= k < ws.len() && (#[trigger] ws[k]).name@ == class_members(ws, c)[i],
    decreases ws.len(),
{
    assert(ws.last() == ws[ws.len() - 1]);
    let prev = class_members(ws.drop_last(), c);
    if ws.last().class@ == c && i == prev.len() {
    } else {
        lemma_class_members_named(ws.drop_last(), c, i);
        let k = choose|k: int| 0 <= k < ws.drop_last().len() && (#[trigger] ws.drop_last()[k]).name@ == prev[i];
        assert(ws[k] == ws.drop_last()[k]);
    }
}

/// In a store ordered by name, the weapons of each class are listed in
/// increasing order of name.
pub proof fn lemma_class_members_sorted(ws: Seq<WeaponPoiseDamage>, c: Seq<char>)
    requires
        sorted_by_name(ws),
    ensures
        forall|i: int, j: int|
            0 <= i < j < class_members(ws, c).len() ==> text_less(
                #[trigger] class_members(ws, c)[i],
                #[trigger] class_members(ws, c)[j],
            ),
    decreases ws.len(),
{
    if ws.len() > 0 {
        let pre = ws.drop_last();
        assert forall|i: int, j: int| 0 <= i < j < pre.len() implies text_less(
            #[trigger] pre[i].name@,
            #[trigger] pre[j].name@,
        ) by {
            assert(pre[i] == ws[i] && pre[j] == ws[j]);
        }
        lemma_class_members_sorted(pre, c);
        let prev = class_members(pre, c);
        let cur = class_members(ws, c);
        assert forall|i: int, j: int| 0 <= i < j < cur.len() implies text_less(
            #[trigger] cur[i],
            #[trigger] cur[j],
        ) by {
            if ws.last().class@ == c && j == prev.len() {
                lemma_class_members_named(pre, c, i);
                let k = choose|k: int| 0 <= k < pre.len() && (#[trigger] pre[k]).name@ == prev[i];
                assert(pre[k] == ws[k]);
                assert(ws.last() == ws[ws.len() - 1]);
            } else {
                assert(cur[i] == prev[i] && cur[j] == prev[j]);
            }
        }
    }
}

/// Lists the classes of `ws`.
fn build_classes(ws: &Vec<WeaponPoiseDamage>) -> (r: Vec<(String, Vec<String>)>)
    ensures
        classes_indexed(ws@, r@),
{
    let mut cs: Vec<(String, Vec<String>)> = Vec::new();
    let mut k: usize = 0;
    assert(ws@.take(0) =~= Seq::<WeaponPoiseDamage>::empty());
    while k < ws.len()
        invariant
            k <= ws.len(),
            forall|i: int, j: int| 0 <= i < j < cs@.len() ==> text_less(#[trigger] cs@[i].0@, #[trigger] cs@[j].0@),
            forall|i: int|
                0 <= i < cs@.len() ==> names_text((#[trigger] cs@[i]).1@) == class_members(ws@.take(k as int), cs@[i].0@)
                    && cs@[i].1@.len() > 0,
            forall|j: int| 0 <= j < k ==> has_class(cs@, (#[trigger] ws@[j]).class@),
        decreases ws.len() - k,
    {
        let ghost pre = ws@.take(k as int);
        let ghost post = ws@.take(k + 1 as int);
        let ghost old_cs = cs@;
        let ghost c0 = ws@[k as int].class@;
        assert(post.drop_last() =~= pre);
        assert(post.last() == ws@[k as int]);
        assert forall|c: Seq<char>| #[trigger] class_members(post, c) == if c == c0 {
            class_members(pre, c).push(ws@[k as int].name@)
        } else {
            class_members(pre, c)
        } by {}
        let mut p: usize = 0;
        while p < cs.len() && text_lt(cs[p].0.as_str(), ws[k].class.as_str())
            invariant
                cs@ == old_cs,
                k < ws.len(),
                c0 == ws@[k as int].class@,
                p <= cs.len(),
                forall|i: int| 0 <= i < p ==> text_less((#[trigger] old_cs[i]).0@, c0),
            decreases cs.len() - p,
        {
            p = p + 1;
        }
        if p < cs.len() && cs[p].0 == ws[k].class {
            let (cn, mut members) = cs.remove(p);
            members.push(ws[k].name.clone());
            cs.insert(p, (cn, members));
            proof {
                assert(cs@ =~= old_cs.update(p as int, cs@[p as int]));
                assert forall|i: int| 0 <= i < cs@.len() && i != p implies (#[trigger] cs@[i]).0@ != c0 by {
                    if i < p {
                        lemma_less_differs(cs@[i].0@, old_cs[p as int].0@);
                    } else {
                        lemma_less_differs(old_cs[p as int].0@, cs@[i].0@);
                    }
                }
                assert(names_text(cs@[p as int].1@) =~= names_text(old_cs[p as int].1@).push(
                    ws@[k as int].name@,
                ));
                assert forall|j: int| 0 <= j < k + 1 implies has_class(cs@, (#[trigger] ws@[j]).class@) by {
                    if j < k {
                        let i = choose|i: int| 0 <= i < old_cs.len() && (#[trigger] old_cs[i]).0@ == ws@[j].class@;
                        assert(cs@[i].0@ == ws@[j].class@);
                    } else {
                        assert(cs@[p as int].0@ == ws@[j].class@);
                    }
                }
            }
        } else {
            let mut members: Vec<String> = Vec::new();
            members.push(ws[k].name.clone());
            cs.insert(p, (ws[k].class.clone(), members));
            proof {
                let t = cs@;
                if p < old_cs.len() {
                    lemma_text_less_total(old_cs[p as int].0@, c0);
                }
                assert forall|j: int| p < j < t.len() implies text_less(c0, (#[trigger] t[j]).0@) by {
                    assert(t[j] == old_cs[j - 1]);
                    if j - 1 > p {
                        lemma_text_less_transitive(c0, old_cs[p as int].0@, old_cs[j - 1].0@);
                    }
                }
                assert forall|i: int| 0 <= i < old_cs.len() implies (#[trigger] old_cs[i]).0@ != c0 by {
                    if i < p {
                        lemma_less_differs(old_cs[i].0@, c0);
                    } else {
                        assert(t[i + 1] == old_cs[i]);
                        lemma_less_differs(c0, t[i + 1].0@);
                    }
                }
                if class_members(pre, c0).len() > 0 {
                    lemma_class_members_source(pre, c0);
                    let j = choose|j: int| 0 <= j < pre.len() && (#[trigger] pre[j]).class@ == c0;
                    assert(pre[j] == ws@[j]);
                    assert(has_class(old_cs, ws@[j].class@));
                }
                assert(names_text(t[p as int].1@) =~= class_members(post, c0));
                assert forall|i: int, j: int| 0 <= i < j < t.len() implies text_less(
                    #[trigger] t[i].0@,
                    #[trigger] t[j].0@,
                ) by {
                    if j < p {
                        assert(t[i] == old_cs[i] && t[j] == old_cs[j]);
                    } else if j == p {
                        assert(t[i] == old_cs[i]);
                    } else if i == p {
                    } else if i < p {
                        assert(t[i] == old_cs[i]);
                        lemma_text_less_transitive(old_cs[i].0@, c0, t[j].0@);
                    } else {
                        assert(t[i] == old_cs[i - 1] && t[j] == old_cs[j - 1]);
                    }
                }
                assert forall|i: int| 0 <= i < t.len() implies names_text((#[trigger] t[i]).1@) == class_members(
                    post,
                    t[i].0@,
                ) && t[i].1@.len() > 0 by {
                    if i < p {
                        assert(t[i] == old_cs[i]);
                    } else if i > p {
                        assert(t[i] == old_cs[i - 1]);
                    }
                }
                assert forall|j: int| 0 <= j < k + 1 implies has_class(t, (#[trigger] ws@[j]).class@) by {
                    if j < k {
                        let i = choose|i: int| 0 <= i < old_cs.len() && (#[trigger] old_cs[i]).0@ == ws@[j].class@;
                        if i < p {
                            assert(t[i] == old_cs[i]);
                        } else {
                            assert(t[i + 1] == old_cs[i]);
                        }
                    } else {
                        assert(t[p as int].0@ == ws@[j].class@);
                    }
                }
            }
        }
        k = k + 1;
    }
    assert(ws@.take(ws.len() as int) =~= ws@);
    cs
}

/// Orders `input` by name, a later weapon replacing an earlier one of the
/// same name.
pub(crate) fn build_weapons(input: Vec<WeaponPoiseDamage>) -> (r: Vec<WeaponPoiseDamage>)
    ensures
        sorted_by_name(r@),
        forall|n: Seq<char>| #[trigger] named(r@, n) == named(input@, n),
{
    let ghost s = input@;
    assert(s.len() == input.len());
    let mut rest = input;
    let mut ws: Vec<WeaponPoiseDamage> = Vec::new();
    let mut k: usize = 0;
    assert(s.take(0) =~= Seq::<WeaponPoiseDamage>::empty());
    assert(s.skip(0) =~= s);
    while rest.len() > 0
        invariant
            k <= s.len(),
            s.len() <= usize::MAX,
            rest@ == s.skip(k as int),
            sorted_by_name(ws@),
            forall|n: Seq<char>| #[trigger] named(ws@, n) == named(s.take(k as int), n),
        decreases rest.len(),
    {
        assert(k < s.len());
        let w = rest.remove(0);
        assert(w == s[k as int]);
        assert(rest@ =~= s.skip(k + 1 as int));
        let ghost before = ws@;
        insert_weapon(&mut ws, w);
        assert(s.take(k + 1 as int).drop_last() =~= s.take(k as int));
        assert forall|n: Seq<char>| #[trigger] named(ws@, n) == named(s.take(k + 1 as int), n) by {
            assert(named(ws@, n) == if n == w.name@ {
                Some(w)
            } else {
                named(before, n)
            });
        }
        k = k + 1;
    }
    assert(s.take(k as int) =~= s);
    ws
}

/// Whether `input[j]` is the last weapon of `input` with its name, the one
/// that a store built from `input` keeps.
pub open spec fn last_of_name(input: Seq<WeaponPoiseDamage>, j: int) -> bool {
    forall|j2: int| j < j2 < input.len() ==> (#[trigger] input[j2]).name@ != input[j].name@
}

/// Whether some weapon kept from `input` takes its innate poise from table
/// entry `t`.
pub open spec fn override_in_use(input: Seq<WeaponPoiseDamage>, t: int) -> bool {
    exists|j: int| 0 <= j < input.len() && last_of_name(input, j) && override_used_by(t, #[trigger] input[j])
}

/// The keys of the first `t` table entries that no weapon kept from `input`
/// uses, in table order.
pub open spec fn unused_overrides_upto(input: Seq<WeaponPoiseDamage>, t: int) -> Seq<Seq<char>>
    decreases t,
{
    if t <= 0 {
        Seq::empty()
    } else if override_in_use(input, t - 1) {
        unused_overrides_upto(input, t - 1)
    } else {
        unused_overrides_upto(input, t - 1).push(innate_poise_table()[t - 1].0)
    }
}

/// The keys of the table entries that no weapon kept from `input` uses.
pub open spec fn unused_overrides(input: Seq<WeaponPoiseDamage>) -> Seq<Seq<char>> {
    unused_overrides_upto(input, innate_poise_table().len() as int)
}

/// Whether some weapon of `ws` takes its innate poise from entry `t`.
fn override_used(
    ws: &Vec<WeaponPoiseDamage>,
    table: &Vec<(&'static str, u16)>,
    t: usize,
) -> (r: bool)
    requires
        table_text(table@) == innate_poise_table(),
    ensures
        r == exists|k: int| 0 <= k < ws@.len() && override_used_by(t as int, #[trigger] ws@[k]),
{
    let mut k: usize = 0;
    while k < ws.len()
        invariant
            k <= ws.len(),
            table_text(table@) == innate_poise_table(),
            forall|j: int| 0 <= j < k ==> !override_used_by(t as int, #[trigger] ws@[j]),
        decreases ws.len() - k,
    {
        let by_name = override_position(table, ws[k].name.as_str());
        let used = match by_name {
            Some(i) => i == t,
            None => match override_position(table, ws[k].class.as_str()) {
                Some(i) => i == t,
                None => false,
            },
        };
        if used {
            return true;
        }
        k = k + 1;
    }
    false
}

/// A weapon uses entry `t` of a store built from `input` exactly when a
/// weapon kept from `input` does.
proof fn lemma_in_use_bridge(ws: Seq<WeaponPoiseDamage>, input: Seq<WeaponPoiseDamage>, t: int)
    requires
        sorted_by_name(ws),
        forall|n: Seq<char>| #[trigger] named(ws, n) == named(input, n),
    ensures
        (exists|k: int| 0 <= k < ws.len() && override_used_by(t, #[trigger] ws[k])) <==> override_in_use(
            input,
            t,
        ),
{
    if exists|k: int| 0 <= k < ws.len() && override_used_by(t, #[trigger] ws[k]) {
        let k = choose|k: int| 0 <= k < ws.len() && override_used_by(t, #[trigger] ws[k]);
        let n = ws[k].name@;
        lemma_named_sorted(ws, k);
        assert(named(input, n) == Some(ws[k]));
        lemma_named_some(input, n);
        let j = choose|j: int|
            0 <= j < input.len() && input[j] == named(input, n)->Some_0 && input[j].name@ == n && (
            forall|j2: int| j < j2 < input.len() ==> (#[trigger] input[j2]).name@ != n);
        assert(last_of_name(input, j));
        assert(override_used_by(t, input[j]));
    }
    if override_in_use(input, t) {
        let j = choose|j: int|
            0 <= j < input.len() && last_of_name(input, j) && override_used_by(t, #[trigger] input[j]);
        let n = input[j].name@;
        lemma_named_at(input, n, j);
        assert(named(ws, n) == Some(input[j]));
        lemma_named_some(ws, n);
        let k = choose|k: int|
            0 <= k < ws.len() && ws[k] == named(ws, n)->Some_0 && ws[k].name@ == n && (forall|j2: int|
                k < j2 < ws.len() ==> (#[trigger] ws[j2]).name@ != n);
        assert(override_used_by(t, ws[k]));
    }
}

/// The sum of a damage sequence.
pub open spec fn total(s: Seq<PoiseDamage>) -> int
    decreases s.len(),
{
    if s.len() == 0 {
        0
    } else {
        total(s.drop_last()) + s.last() as int
    }
}

/// The sequence of `v`, rescaled by `m` if there is one.
pub open spec fn projected(v: PoiseDamageValues, m: Option<Multiplier>) -> Seq<PoiseDamage> {
    match m {
        Some(f) => scaled_sequence(v.0@, f),
        None => v.0@,
    }
}

/// For each weapon of `ws` with a sequence for `a`, in order, its total.
pub open spec fn attack_totals(ws: Seq<WeaponPoiseDamage>, a: Attacks) -> Seq<int>
    decreases ws.len(),
{
    if ws.len() == 0 {
        Seq::empty()
    } else {
        match ws.last().damage(a) {
            Some(v) => attack_totals(ws.drop_last(), a).push(total(v.0@)),
            None => attack_totals(ws.drop_last(), a),
        }
    }
}

/// For each name of `names` whose weapon in `ws` has a sequence for `a`, in
/// order, the name with the total of that sequence, rescaled by `m` if given.
pub open spec fn named_totals(
    ws: Seq<WeaponPoiseDamage>,
    names: Seq<Seq<char>>,
    a: Attacks,
    m: Option<Multiplier>,
) -> Seq<(Seq<char>, int)>
    decreases names.len(),
{
    if names.len() == 0 {
        Seq::empty()
    } else {
        let prev = named_totals(ws, names.drop_last(), a, m);
        match named(ws, names.last()) {
            Some(w) => match w.damage(a) {
                Some(v) => prev.push((names.last(), total(projected(v, m)))),
                None => prev,
            },
            None => prev,
        }
    }
}

/// For each class of `cs` in order, with at least one weapon that has a
/// sequence for `a`, the class and the totals of its weapons.
pub open spec fn class_totals(
    ws: Seq<WeaponPoiseDamage>,
    cs: Seq<(String, Vec<String>)>,
    a: Attacks,
    m: Option<Multiplier>,
) -> Seq<(Seq<char>, Seq<(Seq<char>, int)>)>
    decreases cs.len(),
{
    if cs.len() == 0 {
        Seq::empty()
    } else {
        let prev = class_totals(ws, cs.drop_last(), a, m);
        let t = named_totals(ws, names_text(cs.last().1@), a, m);
        if t.len() > 0 {
            prev.push((cs.last().0@, t))
        } else {
            prev
        }
    }
}

/// The totals as numbers.
pub open spec fn totals_view(v: Seq<u128>) -> Seq<int> {
    v.map_values(|x: u128| x as int)
}

/// The named totals as text and numbers.
pub open spec fn named_totals_view(v: Seq<(String, u128)>) -> Seq<(Seq<char>, int)> {
    v.map_values(|e: (String, u128)| (e.0@, e.1 as int))
}

/// The class totals as text and numbers.
pub open spec fn class_totals_view(v: Seq<(String, Vec<(String, u128)>)>) -> Seq<
    (Seq<char>, Seq<(Seq<char>, int)>),
> {
    v.map_values(|e: (String, Vec<(String, u128)>)| (e.0@, named_totals_view(e.1@)))
}

proof fn lemma_total_bound(s: Seq<PoiseDamage>)
    ensures
        0 <= total(s) <= s.len() * 0xffff,
    decreases s.len(),
{
    if s.len() > 0 {
        lemma_total_bound(s.drop_last());
    }
}

/// The sum of a damage sequence.
pub fn sum_of(s: &Vec<PoiseDamage>) -> (r: u128)
    ensures
        r as int == total(s@),
{
    let mut acc: u128 = 0;
    let mut i: usize = 0;
    assert(s@.take(0) =~= Seq::<PoiseDamage>::empty());
    while i < s.len()
        invariant
            i <= s.len(),
            acc as int == total(s@.take(i as int)),
        decreases s.len() - i,
    {
        proof {
            assert(s@.take(i + 1 as int).drop_last() =~= s@.take(i as int));
            lemma_total_bound(s@.take(i as int));
            assert(i * 0xffff <= 0xffff_ffff_ffff_ffff * 0xffff) by (nonlinear_arith)
                requires
                    i <= 0xffff_ffff_ffff_ffff,
            ;
        }
        acc = acc + s[i] as u128;
        i = i + 1;
    }
    assert(s@.take(s.len() as int) =~= s@);
    acc
}

/// Why the store could not be built.
#[derive(Debug)]
pub enum StoreError {
    /// Keys of the innate-poise table that no loaded weapon takes its poise
    /// from, in table order: the table has drifted from the dataset.
    UnusedOverrides(Vec<String>),
}

/// Every loaded weapon keyed by name, with the weapons of each class.
/// Built once and read thereafter.
pub struct PoiseData {
    weapons: Vec<WeaponPoiseDamage>,
    classes: Vec<(String, Vec<String>)>,
}

impl PoiseData {
    /// The weapons, in increasing order of name.
    pub closed spec fn stock(self) -> Seq<WeaponPoiseDamage> {
        self.weapons@
    }

    /// The classes, in increasing order, each with the names of its weapons.
    pub closed spec fn class_list(self) -> Seq<(String, Vec<String>)> {
        self.classes@
    }

    #[verifier::type_invariant]
    closed spec fn well_formed(self) -> bool {
        sorted_by_name(self.weapons@) && classes_indexed(self.weapons@, self.classes@)
    }

    /// Whether the store holds, under each name, the last weapon of `input`
    /// with that name.
    pub open spec fn built_from(self, input: Seq<WeaponPoiseDamage>) -> bool {
        forall|n: Seq<char>| #[trigger] named(self.stock(), n) == named(input, n)
    }

    /// Builds the store from the loaded weapons, a later weapon replacing an
    /// earlier one of the same name. Fails when an entry of the innate-poise
    /// table is taken by no weapon, listing every such key.
    pub fn new(input: Vec<WeaponPoiseDamage>) -> (r: Result<PoiseData, StoreError>)
        ensures
            r matches Ok(d) ==> sorted_by_name(d.stock()) && d.built_from(input@) && unused_overrides(
                input@,
            ).len() == 0,
            r matches Err(StoreError::UnusedOverrides(keys)) ==> names_text(keys@) == unused_overrides(
                input@,
            ) && keys@.len() > 0,
    {
        let ghost s = input@;
        let weapons = build_weapons(input);
        let classes = build_classes(&weapons);
        let table = innate_poise_overrides();
        let mut unused: Vec<String> = Vec::new();
        let mut t: usize = 0;
        while t < table.len()
            invariant
                t <= table.len(),
                table_text(table@) == innate_poise_table(),
                sorted_by_name(weapons@),
                forall|n: Seq<char>| #[trigger] named(weapons@, n) == named(s, n),
                names_text(unused@) == unused_overrides_upto(s, t as int),
            decreases table.len() - t,
        {
            proof {
                lemma_in_use_bridge(weapons@, s, t as int);
            }
            if !override_used(&weapons, &table, t) {
                assert(table_text(table@)[t as int].0 == table@[t as int].0@);
                unused.push(table[t].0.to_owned());
                assert(names_text(unused@) =~= unused_overrides_upto(s, t + 1 as int));
            }
            t = t + 1;
        }
        if unused.len() > 0 {
            Err(StoreError::UnusedOverrides(unused))
        } else {
            Ok(PoiseData { weapons, classes })
        }
    }

    /// The weapons, in increasing order of name.
    pub fn weapons(&self) -> (r: &Vec<WeaponPoiseDamage>)
        ensures
            r@ == self.stock(),
            sorted_by_name(r@),
    {
        proof {
            use_type_invariant(self);
        }
        &self.weapons
    }

    /// Every class, in increasing order, with the names of its weapons in
    /// increasing order.
    pub fn weapons_by_class(&self) -> (r: &Vec<(String, Vec<String>)>)
        ensures
            r@ == self.class_list(),
            classes_indexed(self.stock(), r@),
            forall|c: Seq<char>, i: int, j: int|
                0 <= i < j < class_members(self.stock(), c).len() ==> text_less(
                    #[trigger] class_members(self.stock(), c)[i],
                    #[trigger] class_members(self.stock(), c)[j],
                ),
    {
        proof {
            use_type_invariant(self);
            assert forall|c: Seq<char>, i: int, j: int|
                0 <= i < j < class_members(self.stock(), c).len() implies text_less(
                    #[trigger] class_members(self.stock(), c)[i],
                    #[trigger] class_members(self.stock(), c)[j],
                ) by {
                lemma_class_members_sorted(self.stock(), c);
            }
        }
        &self.classes
    }

    /// The weapon named `weapon`.
    pub fn lookup(&self, weapon: &str) -> (r: Option<&WeaponPoiseDamage>)
        ensures
            match r {
                Some(w) => named(self.stock(), weapon@) == Some(*w),
                None => named(self.stock(), weapon@) is None,
            },
    {
        proof {
            use_type_invariant(self);
        }
        let mut k: usize = 0;
        while k < self.weapons.len()
            invariant
                k <= self.weapons@.len(),
                sorted_by_name(self.weapons@),
                forall|j: int| 0 <= j < k ==> (#[trigger] self.weapons@[j]).name@ != weapon@,
            decreases self.weapons.len() - k,
        {
            if crate::text::text_eq(self.weapons[k].name.as_str(), weapon) {
                proof {
                    lemma_named_sorted(self.weapons@, k as int);
                }
                return Some(&self.weapons[k]);
            }
            k = k + 1;
        }
        proof {
            lemma_named_none(self.weapons@, weapon@);
        }
        None
    }

    /// The damage sequence of `attack` for the weapon named `weapon`; nothing
    /// for an unknown weapon or where the weapon has no such move.
    pub fn damage_for(&self, weapon: &str, attack: &Attacks) -> (r: Option<&PoiseDamageValues>)
        ensures
            match named(self.stock(), weapon@) {
                Some(w) => deref_damage(r) == w.damage(*attack),
                None => r is None,
            },
    {
        match self.lookup(weapon) {
            Some(w) => w.get_poise_damage_by_attack(attack),
            None => None,
        }
    }

    /// As [`Self::damage_for`], with every figure rescaled by `multiplier`.
    pub fn damage_for_with_multiplier(
        &self,
        weapon: &str,
        attack: &Attacks,
        multiplier: Multiplier,
    ) -> (r: Option<PoiseDamageValues>)
        ensures
            match named(self.stock(), weapon@) {
                Some(w) => (r is Some <==> w.damage(*attack) is Some) && (r is Some ==> r->Some_0.0@
                    == scaled_sequence(w.damage(*attack)->Some_0.0@, multiplier)),
                None => r is None,
            },
    {
        match self.lookup(weapon) {
            Some(w) => w.get_poise_damage_by_attack_w_multiplier(attack, multiplier),
            None => None,
        }
    }

    /// The innate poise of the weapon named `weapon`: the table entry of its
    /// name, else that of its class, else `0`; nothing for an unknown weapon.
    pub fn innate_poise(&self, weapon: &str) -> (r: Option<u16>)
        ensures
            match named(self.stock(), weapon@) {
                Some(w) => r == Some(innate_poise_of(w.name@, w.class@)),
                None => r is None,
            },
    {
        match self.lookup(weapon) {
            Some(w) => {
                let table = innate_poise_overrides();
                match override_position(&table, w.name.as_str()) {
                    Some(i) => Some(table[i].1),
                    None => match override_position(&table, w.class.as_str()) {
                        Some(i) => Some(table[i].1),
                        None => Some(0),
                    },
                }
            },
            None => None,
        }
    }

    /// For each weapon, in increasing order of name, that has a sequence for
    /// `attack`: the total of that sequence.
    pub fn get_poise_damage_values_for_attack(&self, attack: &Attacks) -> (r: Vec<u128>)
        ensures
            totals_view(r@) == attack_totals(self.stock(), *attack),
    {
        let mut out: Vec<u128> = Vec::new();
        let mut k: usize = 0;
        assert(self.weapons@.take(0) =~= Seq::<WeaponPoiseDamage>::empty());
        while k < self.weapons.len()
            invariant
                k <= self.weapons@.len(),
                totals_view(out@) == attack_totals(self.weapons@.take(k as int), *attack),
            decreases self.weapons.len() - k,
        {
            assert(self.weapons@.take(k + 1 as int).drop_last() =~= self.weapons@.take(k as int));
            match self.weapons[k].get_poise_damage_by_attack(attack) {
                Some(v) => {
                    let t = sum_of(&v.0);
                    out.push(t);
                    assert(totals_view(out@) =~= attack_totals(self.weapons@.take(k + 1 as int), *attack));
                },
                None => {},
            }
            k = k + 1;
        }
        assert(self.weapons@.take(self.weapons@.len() as int) =~= self.weapons@);
        out
    }

    /// The totals of the weapons named `names` for `attack`, see [`named_totals`].
    fn totals_for_names(
        &self,
        names: &Vec<String>,
        attack: &Attacks,
        multiplier: &Option<Multiplier>,
    ) -> (r: Vec<(String, u128)>)
        ensures
            named_totals_view(r@) == named_totals(self.stock(), names_text(names@), *attack, *multiplier),
    {
        let ghost ns = names_text(names@);
        let mut out: Vec<(String, u128)> = Vec::new();
        let mut i: usize = 0;
        assert(ns.take(0) =~= Seq::<Seq<char>>::empty());
        while i < names.len()
            invariant
                i <= names.len(),
                ns == names_text(names@),
                named_totals_view(out@) == named_totals(self.stock(), ns.take(i as int), *attack, *multiplier),
            decreases names.len() - i,
        {
            assert(ns.take(i + 1 as int).drop_last() =~= ns.take(i as int));
            assert(ns.take(i + 1 as int).last() == names@[i as int]@);
            let values = match multiplier {
                Some(m) => self.damage_for_with_multiplier(names[i].as_str(), attack, *m),
                None => match self.damage_for(names[i].as_str(), attack) {
                    Some(v) => Some(v.duplicate()),
                    None => None,
                },
            };
            match values {
                Some(v) => {
                    let t = sum_of(&v.0);
                    out.push((names[i].clone(), t));
                    assert(named_totals_view(out@) =~= named_totals(
                        self.stock(),
                        ns.take(i + 1 as int),
                        *attack,
                        *multiplier,
                    ));
                },
                None => {},
            }
            i = i + 1;
        }
        assert(ns.take(names@.len() as int) =~= ns);
        out
    }

    /// For each class, in increasing order, the name and total of each of its
    /// weapons that has a sequence for `attack`, rescaled by `multiplier` if
    /// one is given; a class with no such weapon is left out.
    pub fn get_poise_damage_values_for_attack_by_class(
        &self,
        attack: &Attacks,
        multiplier: &Option<Multiplier>,
    ) -> (r: Vec<(String, Vec<(String, u128)>)>)
        ensures
            class_totals_view(r@) == class_totals(self.stock(), self.class_list(), *attack, *multiplier),
    {
        let mut out: Vec<(String, Vec<(String, u128)>)> = Vec::new();
        let mut i: usize = 0;
        assert(self.classes@.take(0) =~= Seq::<(String, Vec<String>)>::empty());
        while i < self.classes.len()
            invariant
                i <= self.classes@.len(),
                class_totals_view(out@) == class_totals(
                    self.stock(),
                    self.classes@.take(i as int),
                    *attack,
                    *multiplier,
                ),
            decreases self.classes.len() - i,
        {
            assert(self.classes@.take(i + 1 as int).drop_last() =~= self.classes@.take(i as int));
            let entries = self.totals_for_names(&self.classes[i].1, attack, multiplier);
            if entries.len() > 0 {
                out.push((self.classes[i].0.clone(), entries));
                assert(class_totals_view(out@) =~= class_totals(
                    self.stock(),
                    self.classes@.take(i + 1 as int),
                    *attack,
                    *multiplier,
                ));
            }
            i = i + 1;
        }
        assert(self.classes@.take(self.classes@.len() as int) =~= self.classes@);
        out
    }
}

/// An entry of the innate-poise table whose key is the name of no loaded
/// weapon and the class of none (a class the dataset lacks) is unused, so
/// [`PoiseData::new`] refuses the dataset.
pub proof fn lemma_missing_override_refused(input: Seq<WeaponPoiseDamage>, t: int)
    requires
        0 <= t < innate_poise_table().len(),
        forall|j: int|
            0 <= j < input.len() ==> (#[trigger] input[j]).name@ != innate_poise_table()[t].0
                && input[j].class@ != innate_poise_table()[t].0,
    ensures
        unused_overrides(input).contains(innate_poise_table()[t].0),
        unused_overrides(input).len() > 0,
{
    lemma_first_index(innate_poise_table(), innate_poise_table()[t].0);
    assert forall|j: int| 0 <= j < input.len() implies !override_used_by(t, #[trigger] input[j]) by {
        lemma_first_index(innate_poise_table(), input[j].name@);
        lemma_first_index(innate_poise_table(), input[j].class@);
    }
    assert(!override_in_use(input, t));
    lemma_unused_upto_keeps(input, t, innate_poise_table().len() as int);
}

proof fn lemma_unused_upto_keeps(input: Seq<WeaponPoiseDamage>, t: int, u: int)
    requires
        0 <= t < u,
        !override_in_use(input, t),
    ensures
        unused_overrides_upto(input, u).contains(innate_poise_table()[t].0),
    decreases u,
{
    if u - 1 == t {
        let s = unused_overrides_upto(input, u);
        assert(s[s.len() - 1] == innate_poise_table()[t].0);
    } else {
        lemma_unused_upto_keeps(input, t, u - 1);
        let prev = unused_overrides_upto(input, u - 1);
        let i = choose|i: int| 0 <= i < prev.len() && prev[i] == innate_poise_table()[t].0;
        assert(unused_overrides_upto(input, u)[i] == prev[i]);
    }
}

} // verus!
