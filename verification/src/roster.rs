//! The roster as a mathematical object: a sequence of members, the changes
//! that the server announces, and what holds of them.

use vstd::prelude::*;
use vstd::seq_lib::to_multiset_insert;

use crate::text::{
    lemma_name_le_antisymmetric, lemma_name_le_total, lemma_name_le_transitive, lowercase, name_le,
};
use crate::user::{Member, User};

verus! {

/// How a name that somebody typed is matched against the stored names.
#[derive(Clone, Copy, Debug, PartialEq, Eq)]
pub enum NameMatch {
    /// Letter for letter.
    Exact,
    /// After both names have been put in lower case.
    IgnoreCase,
}

/// The text by which a name is compared under `policy`.
pub open spec fn match_key(name: Seq<char>, policy: NameMatch) -> Seq<char> {
    match policy {
        NameMatch::Exact => name,
        NameMatch::IgnoreCase => lowercase(name),
    }
}

/// The first place at which `key` occurs in `keys`, if it occurs.
pub open spec fn first_index(keys: Seq<Seq<char>>, key: Seq<char>) -> Option<int>
    decreases keys.len(),
{
    if keys.len() == 0 {
        None
    } else if keys.last() == key && first_index(keys.drop_last(), key) is None {
        Some(keys.len() - 1)
    } else {
        first_index(keys.drop_last(), key)
    }
}

/// `first_index` finds an occurrence of the key, the earliest one, and finds
/// none only where there is none.
pub proof fn lemma_first_index(keys: Seq<Seq<char>>, key: Seq<char>)
    ensures
        match first_index(keys, key) {
            Some(i) => {
                &&& 0 <= i < keys.len()
                &&& keys[i] == key
                &&& forall|j: int| 0 <= j < i ==> keys[j] != key
            },
            None => forall|j: int| 0 <= j < keys.len() ==> keys[j] != key,
        },
    decreases keys.len(),
{
    if keys.len() > 0 {
        let front = keys.drop_last();
        lemma_first_index(front, key);
        assert forall|j: int| 0 <= j < front.len() implies front[j] == keys[j] by {}
    }
}

/// The names of the members, in their order.
pub open spec fn names(roster: Seq<Member>) -> Seq<Seq<char>> {
    Seq::new(roster.len(), |i: int| roster[i].name)
}

/// The texts by which the members are compared under `policy`, in their
/// order.
pub open spec fn match_keys(roster: Seq<Member>, policy: NameMatch) -> Seq<Seq<char>> {
    Seq::new(roster.len(), |i: int| match_key(roster[i].name, policy))
}

/// The first member whose name matches `name` under `policy`.
pub open spec fn lookup(roster: Seq<Member>, name: Seq<char>, policy: NameMatch) -> Option<
    Member,
> {
    match first_index(match_keys(roster, policy), match_key(name, policy)) {
        Some(i) => Some(roster[i]),
        None => None,
    }
}

/// `lookup` finds a member of the roster whose name matches, the earliest
/// one, and finds none only where no name matches.
pub proof fn lemma_lookup(roster: Seq<Member>, name: Seq<char>, policy: NameMatch)
    ensures
        match lookup(roster, name, policy) {
            Some(member) => exists|i: int|
                {
                    &&& 0 <= i < roster.len()
                    &&& roster[i] == member
                    &&& match_key(member.name, policy) == match_key(name, policy)
                    &&& forall|j: int|
                        0 <= j < i ==> match_key(#[trigger] roster[j].name, policy) != match_key(
                            name,
                            policy,
                        )
                },
            None => forall|j: int|
                0 <= j < roster.len() ==> match_key(#[trigger] roster[j].name, policy)
                    != match_key(name, policy),
        },
{
    let keys = match_keys(roster, policy);
    lemma_first_index(keys, match_key(name, policy));
    match first_index(keys, match_key(name, policy)) {
        Some(at) => {
            assert(keys[at] == match_key(roster[at].name, policy));
            assert forall|j: int| 0 <= j < at implies match_key(
                #[trigger] roster[j].name,
                policy,
            ) != match_key(name, policy) by {
                assert(keys[j] == match_key(roster[j].name, policy));
            }
        },
        None => {
            assert forall|j: int| 0 <= j < roster.len() implies match_key(
                #[trigger] roster[j].name,
                policy,
            ) != match_key(name, policy) by {
                assert(keys[j] == match_key(roster[j].name, policy));
            }
        },
    }
}

/// A name that is found letter for letter is found without regard to case
/// too, though an earlier member may then be the one that is found.
pub proof fn lemma_exact_is_found_ignoring_case(roster: Seq<Member>, name: Seq<char>)
    requires
        lookup(roster, name, NameMatch::Exact) is Some,
    ensures
        lookup(roster, name, NameMatch::IgnoreCase) is Some,
{
    lemma_lookup(roster, name, NameMatch::Exact);
    lemma_lookup(roster, name, NameMatch::IgnoreCase);
    let found = lookup(roster, name, NameMatch::Exact).unwrap();
    let at = choose|i: int| 0 <= i < roster.len() && roster[i] == found;
    assert(match_key(roster[at].name, NameMatch::IgnoreCase) == match_key(
        name,
        NameMatch::IgnoreCase,
    ));
}

/// The roster without the first member called `name`; the roster itself
/// where nobody is called so.
pub open spec fn without_first(roster: Seq<Member>, name: Seq<char>) -> Seq<Member> {
    match first_index(names(roster), name) {
        Some(i) => roster.remove(i),
        None => roster,
    }
}

/// `sorted` with `member` put in behind every entry whose name comes no
/// earlier than the member's.
pub open spec fn insert_desc(sorted: Seq<Member>, member: Member) -> Seq<Member>
    decreases sorted.len(),
{
    if sorted.len() == 0 {
        seq![member]
    } else if name_le(member.name, sorted[0].name) {
        seq![sorted[0]] + insert_desc(sorted.drop_first(), member)
    } else {
        seq![member] + sorted
    }
}

/// The members by name, latest name first; members of one name keep their
/// order.
pub open spec fn sort_desc(roster: Seq<Member>) -> Seq<Member>
    decreases roster.len(),
{
    if roster.len() == 0 {
        Seq::empty()
    } else {
        insert_desc(sort_desc(roster.drop_last()), roster.last())
    }
}

/// Whether each name comes no earlier than the names behind it.
pub open spec fn descending(roster: Seq<Member>) -> bool {
    forall|i: int, j: int| 0 <= i < j < roster.len() ==> name_le(roster[j].name, roster[i].name)
}

/// Whether no two members share a name.
pub open spec fn distinct_names(roster: Seq<Member>) -> bool {
    forall|i: int, j: int|
        0 <= i < j < roster.len() ==> roster[i].name != roster[j].name
}

/// What a list of users stands for.
pub open spec fn members(users: Seq<User>) -> Seq<Member> {
    Seq::new(users.len(), |i: int| users[i]@)
}

/// Where the entries before `at` come no earlier than the member and the
/// entry at `at`, if there is one, comes earlier, `insert_desc` puts the
/// member at `at`.
pub proof fn lemma_insert_desc_at(sorted: Seq<Member>, member: Member, at: int)
    requires
        0 <= at <= sorted.len(),
        forall|j: int| 0 <= j < at ==> name_le(member.name, #[trigger] sorted[j].name),
        at < sorted.len() ==> !name_le(member.name, sorted[at].name),
    ensures
        insert_desc(sorted, member) == sorted.insert(at, member),
    decreases sorted.len(),
{
    if sorted.len() == 0 {
        assert(seq![member] =~= sorted.insert(0, member));
    } else if at == 0 {
        assert(seq![member] + sorted =~= sorted.insert(0, member));
    } else {
        let rest = sorted.drop_first();
        assert forall|j: int| 0 <= j < at - 1 implies name_le(
            member.name,
            #[trigger] rest[j].name,
        ) by {
            assert(rest[j] == sorted[j + 1]);
        }
        lemma_insert_desc_at(rest, member, at - 1);
        assert(seq![sorted[0]] + rest.insert(at - 1, member) =~= sorted.insert(at, member));
    }
}

/// The number of leading entries whose name comes no earlier than the
/// member's: the place to which `insert_desc` puts the member.
pub open spec fn insert_position(sorted: Seq<Member>, member: Member) -> int
    decreases sorted.len(),
{
    if sorted.len() > 0 && name_le(member.name, sorted[0].name) {
        1 + insert_position(sorted.drop_first(), member)
    } else {
        0
    }
}

/// `insert_desc` puts the member at `insert_position` and leaves the other
/// entries as they were.
pub proof fn lemma_insert_desc_position(sorted: Seq<Member>, member: Member)
    ensures
        0 <= insert_position(sorted, member) <= sorted.len(),
        forall|j: int|
            0 <= j < insert_position(sorted, member) ==> name_le(
                member.name,
                #[trigger] sorted[j].name,
            ),
        insert_position(sorted, member) < sorted.len() ==> !name_le(
            member.name,
            sorted[insert_position(sorted, member)].name,
        ),
        insert_desc(sorted, member) == sorted.insert(insert_position(sorted, member), member),
    decreases sorted.len(),
{
    if sorted.len() > 0 && name_le(member.name, sorted[0].name) {
        let rest = sorted.drop_first();
        lemma_insert_desc_position(rest, member);
        let at = insert_position(sorted, member);
        assert forall|j: int| 0 <= j < at implies name_le(
            member.name,
            #[trigger] sorted[j].name,
        ) by {
            if j > 0 {
                assert(sorted[j] == rest[j - 1]);
            }
        }
        assert(at < sorted.len() ==> sorted[at] == rest[at - 1]);
    }
    lemma_insert_desc_at(sorted, member, insert_position(sorted, member));
}

/// Putting a member into a descending list leaves it descending.
pub proof fn lemma_insert_desc_descending(sorted: Seq<Member>, member: Member)
    requires
        descending(sorted),
    ensures
        descending(insert_desc(sorted, member)),
{
    lemma_insert_desc_position(sorted, member);
    let at = insert_position(sorted, member);
    let out = insert_desc(sorted, member);
    assert forall|i: int, j: int| 0 <= i < j < out.len() implies name_le(
        out[j].name,
        out[i].name,
    ) by {
        if j == at {
            assert(out[i] == sorted[i]);
        } else if i == at {
            // the entries from `at` on come earlier than the member
            assert(out[j] == sorted[j - 1]);
            lemma_name_le_total(member.name, sorted[at].name);
            if j - 1 > at {
                lemma_name_le_transitive(sorted[j - 1].name, sorted[at].name, member.name);
            }
        } else {
            let i0 = if i < at { i } else { i - 1 };
            let j0 = if j < at { j } else { j - 1 };
            assert(out[i] == sorted[i0]);
            assert(out[j] == sorted[j0]);
        }
    }
}

/// The sorted roster is descending.
pub proof fn lemma_sort_desc_descending(roster: Seq<Member>)
    ensures
        descending(sort_desc(roster)),
    decreases roster.len(),
{
    if roster.len() > 0 {
        lemma_sort_desc_descending(roster.drop_last());
        lemma_insert_desc_descending(sort_desc(roster.drop_last()), roster.last());
    }
}

/// Sorting neither adds nor loses a member.
pub proof fn lemma_sort_desc_permutes(roster: Seq<Member>)
    ensures
        sort_desc(roster).to_multiset() == roster.to_multiset(),
        sort_desc(roster).len() == roster.len(),
    decreases roster.len(),
{
    if roster.len() == 0 {
        assert(roster =~= Seq::<Member>::empty());
    } else {
        let front = roster.drop_last();
        lemma_sort_desc_permutes(front);
        lemma_insert_desc_position(sort_desc(front), roster.last());
        to_multiset_insert(
            sort_desc(front),
            insert_position(sort_desc(front), roster.last()),
            roster.last(),
        );
        assert(roster =~= front.push(roster.last()));
        vstd::seq_lib::to_multiset_build(front, roster.last());
    }
}

/// Whether each name comes no earlier than the names behind it.
pub open spec fn descending_names(listed: Seq<Seq<char>>) -> bool {
    forall|i: int, j: int| 0 <= i < j < listed.len() ==> name_le(listed[j], listed[i])
}

/// Two descending lists of the same names, each as often in one as in the
/// other, are the same list.
pub proof fn lemma_descending_names_unique(one: Seq<Seq<char>>, other: Seq<Seq<char>>)
    requires
        descending_names(one),
        descending_names(other),
        one.to_multiset() == other.to_multiset(),
    ensures
        one == other,
    decreases one.len(),
{
    one.to_multiset_ensures();
    other.to_multiset_ensures();
    if one.len() == 0 {
        assert(one =~= other);
    } else {
        lemma_first_is_latest(one, other);
        lemma_first_is_latest(other, one);
        lemma_name_le_antisymmetric(one[0], other[0]);
        assert(one.drop_first() =~= one.remove(0));
        assert(other.drop_first() =~= other.remove(0));
        assert forall|i: int, j: int| 0 <= i < j < one.drop_first().len() implies name_le(
            one.drop_first()[j],
            one.drop_first()[i],
        ) by {
            assert(one.drop_first()[i] == one[i + 1]);
            assert(one.drop_first()[j] == one[j + 1]);
        }
        assert forall|i: int, j: int| 0 <= i < j < other.drop_first().len() implies name_le(
            other.drop_first()[j],
            other.drop_first()[i],
        ) by {
            assert(other.drop_first()[i] == other[i + 1]);
            assert(other.drop_first()[j] == other[j + 1]);
        }
        lemma_descending_names_unique(one.drop_first(), other.drop_first());
        assert(one =~= seq![one[0]] + one.drop_first());
        assert(other =~= seq![other[0]] + other.drop_first());
    }
}

/// The first name of a list comes no later than the first name of a
/// descending list that holds it.
proof fn lemma_first_is_latest(one: Seq<Seq<char>>, other: Seq<Seq<char>>)
    requires
        one.len() > 0,
        descending_names(other),
        one.to_multiset() == other.to_multiset(),
    ensures
        other.len() > 0,
        name_le(one[0], other[0]),
{
    one.to_multiset_ensures();
    other.to_multiset_ensures();
    assert(one.contains(one[0]));
    assert(one.to_multiset().count(one[0]) > 0);
    assert(other.to_multiset().count(one[0]) > 0);
    assert(other.contains(one[0]));
    let at = choose|k: int| 0 <= k < other.len() && other[k] == one[0];
    if at == 0 {
        crate::text::lemma_bytes_le_reflexive(vstd::utf8::encode_utf8(one[0]));
    }
}

/// Where a member goes into a roster, the name goes into the names.
proof fn lemma_names_insert(roster: Seq<Member>, at: int, member: Member)
    requires
        0 <= at <= roster.len(),
    ensures
        names(roster.insert(at, member)) == names(roster).insert(at, member.name),
{
    assert(names(roster.insert(at, member)) =~= names(roster).insert(at, member.name));
}

/// A roster is descending exactly when the list of its names is.
proof fn lemma_descending_is_of_names(roster: Seq<Member>)
    ensures
        descending(roster) <==> descending_names(names(roster)),
{
    if descending(roster) {
        assert forall|i: int, j: int| 0 <= i < j < names(roster).len() implies name_le(
            names(roster)[j],
            names(roster)[i],
        ) by {
            assert(names(roster)[i] == roster[i].name);
            assert(names(roster)[j] == roster[j].name);
        }
    }
    if descending_names(names(roster)) {
        assert forall|i: int, j: int| 0 <= i < j < roster.len() implies name_le(
            roster[j].name,
            roster[i].name,
        ) by {
            assert(names(roster)[i] == roster[i].name);
            assert(names(roster)[j] == roster[j].name);
        }
    }
}

/// The sorted roster holds each name as often as the roster does.
pub proof fn lemma_sort_desc_keeps_names(roster: Seq<Member>)
    ensures
        names(sort_desc(roster)).to_multiset() == names(roster).to_multiset(),
    decreases roster.len(),
{
    if roster.len() == 0 {
        assert(names(sort_desc(roster)) =~= names(roster));
    } else {
        let front = roster.drop_last();
        let sorted = sort_desc(front);
        lemma_sort_desc_keeps_names(front);
        lemma_insert_desc_position(sorted, roster.last());
        let at = insert_position(sorted, roster.last());
        lemma_names_insert(sorted, at, roster.last());
        to_multiset_insert(names(sorted), at, roster.last().name);
        assert(names(roster) =~= names(front).push(roster.last().name));
        vstd::seq_lib::to_multiset_build(names(front), roster.last().name);
    }
}

/// The names of the sorted roster depend only on which names the roster
/// holds and how often, not on their order nor on the levels.
pub proof fn lemma_sorted_names_ignore_order(one: Seq<Member>, other: Seq<Member>)
    requires
        names(one).to_multiset() == names(other).to_multiset(),
    ensures
        names(sort_desc(one)) == names(sort_desc(other)),
{
    lemma_sort_desc_keeps_names(one);
    lemma_sort_desc_keeps_names(other);
    lemma_sort_desc_descending(one);
    lemma_sort_desc_descending(other);
    lemma_descending_is_of_names(sort_desc(one));
    lemma_descending_is_of_names(sort_desc(other));
    lemma_descending_names_unique(names(sort_desc(one)), names(sort_desc(other)));
}

/// One change to the roster, as the server announces it.
pub enum RosterChange {
    /// The full roster: it takes the place of what was known.
    Replace(Seq<Member>),
    /// Somebody joined.
    Join(Member),
    /// Somebody of this name left.
    Leave(Seq<char>),
}

/// The roster after one change: a full roster replaces it, a joiner goes to
/// its end even where the name is there already, and of a leaver the first
/// entry of that name goes, if there is one.
pub open spec fn roster_step(roster: Seq<Member>, change: RosterChange) -> Seq<Member> {
    match change {
        RosterChange::Replace(members) => members,
        RosterChange::Join(member) => roster.push(member),
        RosterChange::Leave(name) => without_first(roster, name),
    }
}

/// The roster after the changes, applied in their order.
pub open spec fn replay(roster: Seq<Member>, changes: Seq<RosterChange>) -> Seq<Member>
    decreases changes.len(),
{
    if changes.len() == 0 {
        roster
    } else {
        replay(roster_step(roster, changes[0]), changes.drop_first())
    }
}

/// Replaying one list of changes and then another is replaying the two as
/// one list.
pub proof fn lemma_replay_concat(
    roster: Seq<Member>,
    first: Seq<RosterChange>,
    second: Seq<RosterChange>,
)
    ensures
        replay(roster, first + second) == replay(replay(roster, first), second),
    decreases first.len(),
{
    if first.len() == 0 {
        assert(first + second =~= second);
    } else {
        assert((first + second)[0] == first[0]);
        assert((first + second).drop_first() =~= first.drop_first() + second);
        lemma_replay_concat(roster_step(roster, first[0]), first.drop_first(), second);
    }
}

/// Replaying a list of changes and one more is one step from the replay of
/// the list.
pub proof fn lemma_replay_push(
    roster: Seq<Member>,
    changes: Seq<RosterChange>,
    change: RosterChange,
)
    ensures
        replay(roster, changes.push(change)) == roster_step(replay(roster, changes), change),
{
    lemma_replay_concat(roster, changes, seq![change]);
    assert(changes.push(change) =~= changes + seq![change]);
    let then = replay(roster, changes);
    assert(seq![change].drop_first() =~= Seq::<RosterChange>::empty());
    assert(replay(then, seq![change]) == replay(
        roster_step(then, change),
        Seq::<RosterChange>::empty(),
    ));
}

/// A full roster makes what came before it irrelevant: neither the roster
/// at the start nor the changes before the full roster count.
pub proof fn lemma_replay_forgets(
    roster: Seq<Member>,
    before: Seq<RosterChange>,
    members: Seq<Member>,
    after: Seq<RosterChange>,
)
    ensures
        replay(roster, before.push(RosterChange::Replace(members)) + after) == replay(
            members,
            after,
        ),
{
    lemma_replay_concat(roster, before.push(RosterChange::Replace(members)), after);
    lemma_replay_push(roster, before, RosterChange::Replace(members));
}

/// Whether a change keeps names apart, given the roster that it meets: a full
/// roster must itself hold no name twice, and a joiner must be new.
pub open spec fn keeps_names_apart(roster: Seq<Member>, change: RosterChange) -> bool {
    match change {
        RosterChange::Replace(members) => distinct_names(members),
        RosterChange::Join(member) => first_index(names(roster), member.name) is None,
        RosterChange::Leave(_) => true,
    }
}

/// A roster without a repeated name stays so under every change that keeps
/// names apart.
pub proof fn lemma_step_keeps_distinct(roster: Seq<Member>, change: RosterChange)
    requires
        distinct_names(roster),
        keeps_names_apart(roster, change),
    ensures
        distinct_names(roster_step(roster, change)),
{
    match change {
        RosterChange::Replace(_) => {},
        RosterChange::Join(member) => {
            lemma_first_index(names(roster), member.name);
            let out = roster.push(member);
            assert forall|i: int, j: int| 0 <= i < j < out.len() implies out[i].name
                != out[j].name by {
                if j == roster.len() {
                    assert(names(roster)[i] == roster[i].name);
                }
            }
        },
        RosterChange::Leave(name) => {
            lemma_first_index(names(roster), name);
            match first_index(names(roster), name) {
                Some(at) => {
                    let out = roster.remove(at);
                    assert forall|i: int, j: int| 0 <= i < j < out.len() implies out[i].name
                        != out[j].name by {
                        let i0 = if i < at { i } else { i + 1 };
                        let j0 = if j < at { j } else { j + 1 };
                        assert(out[i] == roster[i0]);
                        assert(out[j] == roster[j0]);
                    }
                },
                None => {},
            }
        },
    }
}

/// In a roster without a repeated name, nobody of the leaver's name is left
/// behind.
pub proof fn lemma_removed_name_is_gone(roster: Seq<Member>, name: Seq<char>)
    requires
        distinct_names(roster),
    ensures
        first_index(names(without_first(roster, name)), name) is None,
{
    lemma_first_index(names(roster), name);
    let out = without_first(roster, name);
    lemma_first_index(names(out), name);
    match first_index(names(roster), name) {
        Some(at) => {
            if first_index(names(out), name) is Some {
                let k = first_index(names(out), name).unwrap();
                let k0 = if k < at { k } else { k + 1 };
                assert(names(out)[k] == out[k].name);
                assert(out[k] == roster[k0]);
                assert(names(roster)[at] == roster[at].name);
            }
        },
        None => {},
    }
}

} // verus!
