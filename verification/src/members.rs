//! Editing the fixed members of a preset: adding keys keeps the existing
//! order and never duplicates a member; removing keys keeps the others in
//! order.
use crate::install::string_views;
use vstd::prelude::*;

verus! {

/// `members` with each of `keys` appended, in order, unless already there.
pub open spec fn added(members: Seq<Seq<char>>, keys: Seq<Seq<char>>) -> Seq<Seq<char>>
    decreases keys.len(),
{
    if keys.len() == 0 {
        members
    } else {
        let before = added(members, keys.drop_last());
        if before.contains(keys.last()) {
            before
        } else {
            before.push(keys.last())
        }
    }
}

/// `members` without any of `keys`, the rest in order.
pub open spec fn removed(members: Seq<Seq<char>>, keys: Seq<Seq<char>>) -> Seq<Seq<char>> {
    members.filter(|m: Seq<char>| !keys.contains(m))
}

/// Whether `list` holds `key`.
pub fn holds(list: &[String], key: &String) -> (r: bool)
    ensures
        r == string_views(list@).contains(key@),
{
    let mut i: usize = 0;
    while i < list.len()
        invariant
            i <= list@.len(),
            forall|j: int| 0 <= j < i ==> list@[j]@ != key@,
        decreases list@.len() - i,
    {
        if list[i] == *key {
            assert(string_views(list@)[i as int] == key@);
            return true;
        }
        i = i + 1;
    }
    assert forall|j: int| 0 <= j < string_views(list@).len() implies string_views(list@)[j] != key@ by {
        assert(string_views(list@)[j] == list@[j]@);
    }
    false
}

/// Adds `keys` to `members` (see [`added`]) or removes them (see
/// [`removed`]).
pub fn edit_members(members: &mut Vec<String>, keys: &[String], add: bool)
    ensures
        string_views(final(members)@) == (if add {
            added(string_views(old(members)@), string_views(keys@))
        } else {
            removed(string_views(old(members)@), string_views(keys@))
        }),
{
    let ghost original = string_views(members@);
    if add {
        let mut i: usize = 0;
        while i < keys.len()
            invariant
                i <= keys@.len(),
                string_views(members@) == added(original, string_views(keys@.take(i as int))),
            decreases keys@.len() - i,
        {
            proof {
                assert(string_views(keys@.take(i + 1)).drop_last() =~= string_views(
                    keys@.take(i as int),
                ));
                assert(string_views(keys@.take(i + 1)).last() == keys@[i as int]@);
            }
            if !holds(members.as_slice(), &keys[i]) {
                let ghost before = members@;
                members.push(keys[i].clone());
                assert(string_views(members@) =~= string_views(before).push(keys@[i as int]@));
            }
            i = i + 1;
        }
        assert(keys@.take(keys@.len() as int) =~= keys@);
    } else {
        let mut kept: Vec<String> = Vec::new();
        let mut i: usize = 0;
        while i < members.len()
            invariant
                i <= members@.len(),
                string_views(members@) == original,
                string_views(kept@) == removed(original.take(i as int), string_views(keys@)),
            decreases members@.len() - i,
        {
            proof {
                reveal(Seq::filter);
                assert(original.take(i + 1).drop_last() =~= original.take(i as int));
                assert(original.take(i + 1).last() == members@[i as int]@);
            }
            if !holds(keys, &members[i]) {
                let ghost before = kept@;
                kept.push(members[i].clone());
                assert(string_views(kept@) =~= string_views(before).push(members@[i as int]@));
            }
            i = i + 1;
        }
        assert(original.take(original.len() as int) =~= original);
        *members = kept;
    }
}

/// Toggling adds the keys when any of them is not yet a member, and
/// removes them all otherwise.
pub fn toggle_adds(members: &[String], keys: &[String]) -> (r: bool)
    ensures
        r == exists|i: int|
            0 <= i < keys@.len() && !string_views(members@).contains(#[trigger] keys@[i]@),
{
    let mut i: usize = 0;
    while i < keys.len()
        invariant
            i <= keys@.len(),
            forall|j: int| 0 <= j < i ==> string_views(members@).contains(#[trigger] keys@[j]@),
        decreases keys@.len() - i,
    {
        if !holds(members, &keys[i]) {
            return true;
        }
        i = i + 1;
    }
    false
}

/// After adding, every key is a member, and the former members keep their
/// places at the front.
pub proof fn law_added_holds_keys_and_keeps_members(members: Seq<Seq<char>>, keys: Seq<Seq<char>>)
    ensures
        forall|i: int| 0 <= i < keys.len() ==> added(members, keys).contains(#[trigger] keys[i]),
        added(members, keys).take(members.len() as int) == members,
        members.len() <= added(members, keys).len(),
    decreases keys.len(),
{
    if keys.len() > 0 {
        law_added_holds_keys_and_keeps_members(members, keys.drop_last());
        let before = added(members, keys.drop_last());
        assert forall|i: int| 0 <= i < keys.len() implies added(members, keys).contains(
            #[trigger] keys[i],
        ) by {
            if i < keys.len() - 1 {
                assert(keys.drop_last()[i] == keys[i]);
                assert(before.contains(keys[i]));
                let k = choose|k: int| 0 <= k < before.len() && before[k] == keys[i];
                if !before.contains(keys.last()) {
                    assert(before.push(keys.last())[k] == keys[i]);
                }
            } else {
                if !before.contains(keys.last()) {
                    assert(before.push(keys.last())[before.len() as int] == keys.last());
                }
            }
        }
        if !before.contains(keys.last()) {
            assert(before.push(keys.last()).take(members.len() as int) =~= before.take(
                members.len() as int,
            ));
        }
    }
}

/// Adding keys twice is adding them once.
pub proof fn law_add_idempotent(members: Seq<Seq<char>>, keys: Seq<Seq<char>>)
    ensures
        added(added(members, keys), keys) == added(members, keys),
{
    law_added_holds_keys_and_keeps_members(members, keys);
    lemma_added_noop(added(members, keys), keys);
}

proof fn lemma_added_noop(members: Seq<Seq<char>>, keys: Seq<Seq<char>>)
    requires
        forall|i: int| 0 <= i < keys.len() ==> members.contains(#[trigger] keys[i]),
    ensures
        added(members, keys) == members,
    decreases keys.len(),
{
    if keys.len() > 0 {
        assert forall|i: int| 0 <= i < keys.drop_last().len() implies members.contains(
            #[trigger] keys.drop_last()[i],
        ) by {
            assert(keys.drop_last()[i] == keys[i]);
        }
        lemma_added_noop(members, keys.drop_last());
        assert(members.contains(keys[keys.len() - 1]));
    }
}

/// After removing, no key is a member, and every remaining member was one
/// before.
pub proof fn law_removed_drops_exactly_keys(members: Seq<Seq<char>>, keys: Seq<Seq<char>>)
    ensures
        forall|i: int| 0 <= i < keys.len() ==> !removed(members, keys).contains(#[trigger] keys[i]),
        forall|m: Seq<char>| #[trigger] members.contains(m) && !keys.contains(m) ==> removed(members, keys).contains(m),
        forall|m: Seq<char>| #[trigger] removed(members, keys).contains(m) ==> members.contains(m),
{
    let pred = |m: Seq<char>| !keys.contains(m);
    assert forall|i: int| 0 <= i < keys.len() implies !removed(members, keys).contains(
        #[trigger] keys[i],
    ) by {
        if removed(members, keys).contains(keys[i]) {
            let k = choose|k: int| 0 <= k < removed(members, keys).len() && removed(members, keys)[k] == keys[i];
            members.lemma_filter_pred(pred, k);
            assert(pred(removed(members, keys)[k]));
        }
    }
    assert forall|m: Seq<char>| #[trigger] members.contains(m) && !keys.contains(m) implies removed(
        members,
        keys,
    ).contains(m) by {
        let k = choose|k: int| 0 <= k < members.len() && members[k] == m;
        members.lemma_filter_contains(pred, k);
    }
    assert forall|m: Seq<char>| #[trigger] removed(members, keys).contains(m) implies members.contains(m) by {
        members.lemma_filter_contains_rev(pred, m);
    }
}

/// Toggling keys leaves them all members or none of them: all when any was
/// missing (they are added), none otherwise (they are removed).
pub proof fn law_toggle_all_or_none(members: Seq<Seq<char>>, keys: Seq<Seq<char>>)
    ensures
        (exists|i: int| 0 <= i < keys.len() && !members.contains(#[trigger] keys[i])) ==> forall|
            i: int,
        | 0 <= i < keys.len() ==> added(members, keys).contains(#[trigger] keys[i]),
        !(exists|i: int| 0 <= i < keys.len() && !members.contains(#[trigger] keys[i])) ==> forall|
            i: int,
        | 0 <= i < keys.len() ==> !removed(members, keys).contains(#[trigger] keys[i]),
{
    law_added_holds_keys_and_keeps_members(members, keys);
    law_removed_drops_exactly_keys(members, keys);
}

} // verus!
