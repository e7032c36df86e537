//! A sorted set: members with scores, found by member and by rank.
//!
//! Scores are kept as the bits that they came with. Members are listed by rank, so those
//! whose scores are equal as numbers stand together.

use crate::cache::score;
use crate::utils::byte_strings;
use crate::utils::bytes_map::BytesMap;
use std::collections::BTreeMap;
use vstd::prelude::*;
use vstd::std_specs::cmp::OrdSpec;
use vstd::std_specs::iter::IteratorSpec;

verus! {

broadcast use {vstd::std_specs::btree::group_btree_axioms, vstd::laws_cmp::group_laws_cmp};

/// A request to set the scores of members.
#[derive(Debug)]
pub struct ZAddReq {
    pub key: Vec<u8>,
    /// Each member with the bits of its score.
    pub members: Vec<(Vec<u8>, u64)>,
    /// Only members that are not there yet.
    pub nx: bool,
    /// Only members that are there.
    pub xx: bool,
    /// Of members that are there, only to greater scores.
    pub gt: bool,
    /// Of members that are there, only to lesser scores.
    pub lt: bool,
    /// The reply counts the changed members too, not only the new ones.
    pub ch: bool,
}

impl ZAddReq {
    /// Whether a member whose score is this, if it is there, is to get the score.
    pub open spec fn accepts(&self, existing: Option<u64>, score: u64) -> bool {
        match existing {
            None => !self.xx,
            Some(current) => !self.nx && (self.gt ==> score::rank(score) > score::rank(current))
                && (self.lt ==> score::rank(score) < score::rank(current)),
        }
    }
}

/// Members with their scores.
pub open spec fn scored(members: Seq<(Vec<u8>, u64)>) -> Seq<(Seq<u8>, u64)> {
    members.map_values(|pair: (Vec<u8>, u64)| (pair.0@, pair.1))
}

/// The members of each rank, in the order in which they came to it, and the score of
/// each member.
#[verifier::ext_equal]
pub struct SortedSetModel {
    pub tree: Map<u64, Seq<Seq<u8>>>,
    pub hash: Map<Seq<u8>, u64>,
}

/// The members of a rank.
pub open spec fn bucket(tree: Map<u64, Seq<Seq<u8>>>, rank: u64) -> Seq<Seq<u8>> {
    if tree.contains_key(rank) {
        tree[rank]
    } else {
        Seq::empty()
    }
}

/// A list without one member.
pub open spec fn without(members: Seq<Seq<u8>>, member: Seq<u8>) -> Seq<Seq<u8>> {
    members.filter(|other: Seq<u8>| other != member)
}

/// Without one member of a rank; a rank without members goes.
pub open spec fn unlisted(
    tree: Map<u64, Seq<Seq<u8>>>,
    rank: u64,
    member: Seq<u8>,
) -> Map<u64, Seq<Seq<u8>>> {
    let rest = without(bucket(tree, rank), member);
    if rest.len() == 0 {
        tree.remove(rank)
    } else {
        tree.insert(rank, rest)
    }
}

/// With one more member of a rank.
pub open spec fn listed(
    tree: Map<u64, Seq<Seq<u8>>>,
    rank: u64,
    member: Seq<u8>,
) -> Map<u64, Seq<Seq<u8>>> {
    tree.insert(rank, bucket(tree, rank).push(member))
}

impl SortedSetModel {
    /// Without members.
    pub open spec fn empty() -> SortedSetModel {
        SortedSetModel { tree: Map::empty(), hash: Map::empty() }
    }

    /// Both sides say the same, no member is listed twice, and no rank is listed
    /// without members.
    pub open spec fn consistent(self) -> bool {
        &&& forall|member: Seq<u8>, rank: u64| #[trigger]
            bucket(self.tree, rank).contains(member) <==> self.ranks(member, rank)
        &&& forall|rank: u64| #[trigger] bucket(self.tree, rank).no_duplicates()
        &&& forall|rank: u64|
            self.tree.contains_key(rank) ==> (#[trigger] self.tree[rank]).len() > 0
    }

    /// Whether a member has a score of this rank.
    pub open spec fn ranks(self, member: Seq<u8>, rank: u64) -> bool {
        self.hash.contains_key(member) && score::rank(self.hash[member]) == rank
    }

    /// The score of a member.
    pub open spec fn score_of(self, member: Seq<u8>) -> Option<u64> {
        if self.hash.contains_key(member) {
            Some(self.hash[member])
        } else {
            None
        }
    }

    /// After a member got a score.
    pub open spec fn with_score(self, member: Seq<u8>, score: u64) -> SortedSetModel {
        let tree = match self.score_of(member) {
            Some(current) => unlisted(self.tree, score::rank(current), member),
            None => self.tree,
        };
        SortedSetModel {
            tree: listed(tree, score::rank(score), member),
            hash: self.hash.insert(member, score),
        }
    }

    /// After a request has been applied to one member.
    pub open spec fn step(self, req: ZAddReq, member: Seq<u8>, score: u64) -> SortedSetModel {
        if req.accepts(self.score_of(member), score) {
            self.with_score(member, score)
        } else {
            self
        }
    }

    /// After a request has been applied to members, one after the other.
    pub open spec fn after(self, req: ZAddReq, members: Seq<(Seq<u8>, u64)>) -> SortedSetModel
        decreases members.len(),
    {
        if members.len() == 0 {
            self
        } else {
            self.after(req, members.drop_last()).step(req, members.last().0, members.last().1)
        }
    }

    /// Whether the member at a position gets its score.
    pub open spec fn changes_at(self, req: ZAddReq, members: Seq<(Seq<u8>, u64)>, i: int) -> bool {
        req.accepts(self.after(req, members.take(i)).score_of(members[i].0), members[i].1)
    }

    /// Whether the member at a position gets its score, and had none.
    pub open spec fn adds_at(self, req: ZAddReq, members: Seq<(Seq<u8>, u64)>, i: int) -> bool {
        &&& self.changes_at(req, members, i)
        &&& self.after(req, members.take(i)).score_of(members[i].0) is None
    }

    /// How many of the first members get their scores.
    pub open spec fn changes(self, req: ZAddReq, members: Seq<(Seq<u8>, u64)>, n: nat) -> nat
        decreases n,
    {
        if n == 0 {
            0
        } else {
            let before = self.changes(req, members, (n - 1) as nat);
            if self.changes_at(req, members, n - 1) {
                before + 1
            } else {
                before
            }
        }
    }

    /// How many of the first members are new.
    pub open spec fn additions(self, req: ZAddReq, members: Seq<(Seq<u8>, u64)>, n: nat) -> nat
        decreases n,
    {
        if n == 0 {
            0
        } else {
            let before = self.additions(req, members, (n - 1) as nat);
            if self.adds_at(req, members, n - 1) {
                before + 1
            } else {
                before
            }
        }
    }
}

/// A sorted set.
#[derive(Debug)]
pub struct SortedSet {
    tree: BTreeMap<u64, Vec<Vec<u8>>>,
    hash: BytesMap<u64>,
}

impl View for SortedSet {
    type V = SortedSetModel;

    closed spec fn view(&self) -> SortedSetModel {
        SortedSetModel {
            tree: self.tree@.map_values(|members: Vec<Vec<u8>>| byte_strings::names(members@)),
            hash: self.hash@,
        }
    }
}

/// A list that is one longer, without one member.
proof fn lemma_without_push(members: Seq<Seq<u8>>, last: Seq<u8>, member: Seq<u8>)
    ensures
        without(members.push(last), member) == (if last != member {
            without(members, member).push(last)
        } else {
            without(members, member)
        }),
{
    reveal(Seq::filter);
    assert(members.push(last).drop_last() =~= members);
}

/// A list without one member has all the others, and repeats none that it did not
/// repeat before.
proof fn lemma_without(members: Seq<Seq<u8>>, member: Seq<u8>)
    ensures
        forall|other: Seq<u8>| #[trigger]
            without(members, member).contains(other) <==> members.contains(other) && other
                != member,
        members.no_duplicates() ==> without(members, member).no_duplicates(),
    decreases members.len(),
{
    if members.len() == 0 {
        reveal(Seq::filter);
        assert(without(members, member) =~= members);
    } else {
        let rest = members.drop_last();
        let last = members.last();
        assert(members =~= rest.push(last));
        lemma_without(rest, member);
        lemma_without_push(rest, last, member);
        assert forall|other: Seq<u8>| #[trigger]
            without(members, member).contains(other) <==> members.contains(other) && other
                != member by {
            byte_strings::lemma_push_contains(rest, last, other);
            byte_strings::lemma_push_contains(without(rest, member), last, other);
        }
        if members.no_duplicates() {
            assert(!rest.contains(last)) by {
                if rest.contains(last) {
                    let i = choose|i: int| 0 <= i < rest.len() && rest[i] == last;
                    assert(members[i] == members[rest.len() as int]);
                }
            }
            assert(rest.no_duplicates()) by {
                assert forall|i: int, j: int|
                    0 <= i < rest.len() && 0 <= j < rest.len() && i != j implies rest[i]
                    != rest[j] by {
                    assert(members[i] != members[j]);
                }
            }
            assert(!without(rest, member).contains(last));
        }
    }
}

/// The members without one of them.
fn retain_others(members: &Vec<Vec<u8>>, member: &Vec<u8>) -> (rest: Vec<Vec<u8>>)
    ensures
        byte_strings::names(rest@) == without(byte_strings::names(members@), member@),
{
    let mut rest: Vec<Vec<u8>> = Vec::new();
    let mut i: usize = 0;
    assert(without(byte_strings::names(members@).take(0), member@) =~= byte_strings::names(rest@)) by {
        reveal(Seq::filter);
    }
    while i < members.len()
        invariant
            i <= members.len(),
            byte_strings::names(rest@) == without(byte_strings::names(members@).take(i as int), member@),
        decreases members.len() - i,
    {
        let ghost before = rest@;
        let ghost prefix = byte_strings::names(members@).take(i as int);
        proof {
            assert(byte_strings::names(members@).take(i + 1) =~= prefix.push(members@[i as int]@));
            lemma_without_push(prefix, members@[i as int]@, member@);
        }
        if members[i] == *member {
            assert(members@[i as int]@ =~= member@);
        } else {
            assert(members@[i as int]@ != member@);
            let other = members[i].clone();
            assert(other@ =~= members@[i as int]@);
            rest.push(other);
            assert(byte_strings::names(rest@) =~= byte_strings::names(before).push(members@[i as int]@));
        }
        i = i + 1;
    }
    assert(byte_strings::names(members@).take(i as int) =~= byte_strings::names(members@));
    rest
}

/// Giving a member a score keeps the two sides in agreement.
pub proof fn law_scoring_keeps_consistency(set: SortedSetModel, member: Seq<u8>, score: u64)
    requires
        set.consistent(),
    ensures
        set.with_score(member, score).consistent(),
{
    let tree = match set.score_of(member) {
        Some(current) => unlisted(set.tree, score::rank(current), member),
        None => set.tree,
    };
    let after = set.with_score(member, score);
    assert forall|s: u64, other: Seq<u8>| #[trigger]
        bucket(tree, s).contains(other) <==> set.ranks(other, s) && other
            != member by {
        lemma_without(bucket(set.tree, s), member);
        assert(bucket(set.tree, s).contains(other) <==> set.ranks(other, s));
        if let Some(current) = set.score_of(member) {
            if s == score::rank(current) {
                let rest = without(bucket(set.tree, s), member);
                assert(bucket(tree, s) =~= rest);
            }
        }
    }
    assert forall|s: u64| #[trigger] bucket(tree, s).no_duplicates() by {
        lemma_without(bucket(set.tree, s), member);
        assert(bucket(set.tree, s).no_duplicates());
        if let Some(current) = set.score_of(member) {
            if s == score::rank(current) {
                assert(bucket(tree, s) =~= without(bucket(set.tree, s), member));
            }
        }
    }
    assert forall|other: Seq<u8>, s: u64| #[trigger]
        bucket(after.tree, s).contains(other) <==> after.ranks(other, s) by {
        byte_strings::lemma_push_contains(bucket(tree, score::rank(score)), member, other);
        assert(bucket(tree, s).contains(other) <==> set.ranks(other, s) && other
            != member);
    }
    assert forall|s: u64| #[trigger] bucket(after.tree, s).no_duplicates() by {
        assert(bucket(tree, s).no_duplicates());
        assert(!bucket(tree, score::rank(score)).contains(member));
    }
    assert forall|s: u64| after.tree.contains_key(s) implies (#[trigger] after.tree[s]).len()
        > 0 by {
        if s != score::rank(score) {
            assert(tree.contains_key(s));
            if set.tree.contains_key(s) {
                assert(set.tree[s].len() > 0);
            }
        }
    }
}

impl SortedSet {
    /// Both sides are maps that say the same.
    pub closed spec fn inv(&self) -> bool {
        &&& self.hash.inv()
        &&& self@.consistent()
    }

    /// What callers may rely on between calls.
    pub proof fn lemma_inv(&self)
        requires
            self.inv(),
        ensures
            self@.consistent(),
    {
    }

    /// A sorted set without members.
    pub fn new() -> (set: SortedSet)
        ensures
            set.inv(),
            set@ == SortedSetModel::empty(),
    {
        let set = SortedSet { tree: BTreeMap::new(), hash: BytesMap::new() };
        assert(set@ =~= SortedSetModel::empty());
        set
    }

    /// Strikes a member out of a rank.
    fn unlist(&mut self, rank: u64, member: &Vec<u8>)
        ensures
            final(self).hash == old(self).hash,
            final(self)@.tree == unlisted(old(self)@.tree, rank, member@),
    {
        match self.tree.remove(&rank) {
            Some(members) => {
                let rest = retain_others(&members, member);
                if rest.len() > 0 {
                    self.tree.insert(rank, rest);
                }
                assert(self@.tree =~= unlisted(old(self)@.tree, rank, member@));
            },
            None => {
                proof {
                    reveal(Seq::filter);
                }
                assert(self@.tree =~= unlisted(old(self)@.tree, rank, member@));
            },
        }
    }

    /// Lists a member under a rank.
    fn list(&mut self, rank: u64, member: Vec<u8>)
        ensures
            final(self).hash == old(self).hash,
            final(self)@.tree == listed(old(self)@.tree, rank, member@),
    {
        let mut members = match self.tree.remove(&rank) {
            Some(members) => members,
            None => Vec::new(),
        };
        let ghost before = members@;
        assert(byte_strings::names(before) =~= bucket(old(self)@.tree, rank));
        members.push(member);
        assert(byte_strings::names(members@) =~= byte_strings::names(before).push(member@));
        self.tree.insert(rank, members);
        assert(self@.tree =~= listed(old(self)@.tree, rank, member@));
    }

    /// Gives a member a score; hands out the score that it had.
    fn set_score(&mut self, member: &Vec<u8>, score: u64) -> (replaced: Option<u64>)
        requires
            old(self).inv(),
        ensures
            final(self).inv(),
            final(self)@ == old(self)@.with_score(member@, score),
            replaced == old(self)@.score_of(member@),
    {
        let key = member.clone();
        assert(key@ =~= member@);
        let replaced = self.hash.insert(key, score);
        assert(replaced == old(self)@.score_of(member@));
        if let Some(current) = replaced {
            self.unlist(score::rank_of(current), member);
        }
        let name = member.clone();
        assert(name@ =~= member@);
        self.list(score::rank_of(score), name);
        proof {
            assert(self@ =~= old(self)@.with_score(member@, score));
            law_scoring_keeps_consistency(old(self)@, member@, score);
        }
        replaced
    }

    /// Sets the scores of members as the request asks; returns how many members are
    /// new, or how many got a score, if the request asks for that.
    pub fn zadd(&mut self, req: ZAddReq) -> (count: i64)
        requires
            old(self).inv(),
        ensures
            final(self).inv(),
            final(self)@ == old(self)@.after(req, scored(req.members@)),
            count == (if req.ch {
                old(self)@.changes(req, scored(req.members@), req.members@.len())
            } else {
                old(self)@.additions(req, scored(req.members@), req.members@.len())
            }) as i64,
    {
        let ghost members = scored(req.members@);
        let mut added_count: usize = 0;
        let mut changed_count: usize = 0;
        let mut i: usize = 0;
        assert(members.take(0) =~= Seq::empty());
        while i < req.members.len()
            invariant
                i <= req.members.len(),
                members == scored(req.members@),
                self.inv(),
                self@ == old(self)@.after(req, members.take(i as int)),
                added_count <= i,
                changed_count <= i,
                added_count == old(self)@.additions(req, members, i as nat),
                changed_count == old(self)@.changes(req, members, i as nat),
            decreases req.members.len() - i,
        {
            let ghost before = self@;
            let member = &req.members[i].0;
            let score = req.members[i].1;
            proof {
                assert(members.take(i + 1).drop_last() =~= members.take(i as int));
                assert(members.take(i + 1).last() == (member@, score));
            }
            let skipped = match self.hash.get(member) {
                Some(existing) => {
                    let rank = score::rank_of(score);
                    let current = score::rank_of(*existing);
                    req.nx || (req.gt && rank <= current) || (req.lt && rank >= current)
                },
                None => req.xx,
            };
            assert(skipped == !req.accepts(before.score_of(member@), score));
            if !skipped {
                let replaced = self.set_score(member, score);
                if replaced.is_none() {
                    added_count = added_count + 1;
                }
                changed_count = changed_count + 1;
            }
            assert(self@ == before.step(req, member@, score));
            i = i + 1;
        }
        assert(members.take(i as int) =~= members);
        if req.ch {
            changed_count as i64
        } else {
            added_count as i64
        }
    }
}

impl Clone for SortedSet {
    fn clone(&self) -> (copy: SortedSet)
        ensures
            self.inv() ==> copy.inv() && copy@ == self@,
    {
        let copy = SortedSet { tree: self.tree.clone(), hash: self.hash.clone() };
        proof {
            if self.inv() {
                assert(copy.hash@ =~= self.hash@) by {
                    assert forall|member: Seq<u8>| self.hash@.contains_key(
                        member,
                    ) implies #[trigger] copy.hash@[member] == self.hash@[member] by {
                        assert(cloned(self.hash@[member], copy.hash@[member]));
                    }
                }
                assert(copy@ =~= self@);
            }
        }
        copy
    }
}

/// Members with their scores.
pub open spec fn with_scores(members: Seq<Seq<u8>>, hash: Map<Seq<u8>, u64>) -> Seq<
    (Seq<u8>, u64),
> {
    members.map_values(|member: Seq<u8>| (member, hash[member]))
}

/// The members of some ranks with their scores, rank by rank.
pub open spec fn ranked(set: SortedSetModel, ranks: Seq<u64>) -> Seq<(Seq<u8>, u64)>
    decreases ranks.len(),
{
    if ranks.len() == 0 {
        Seq::empty()
    } else {
        ranked(set, ranks.drop_last()) + with_scores(bucket(set.tree, ranks.last()), set.hash)
    }
}

/// Each rank is greater than those before it.
pub open spec fn rising(ranks: Seq<u64>) -> bool {
    forall|i: int, j: int| 0 <= i < j < ranks.len() ==> ranks[i] < ranks[j]
}

impl SortedSet {
    /// The ranks of the scores that members have, from the least to the greatest.
    fn ranks(&self) -> (ranks: Vec<u64>)
        ensures
            rising(ranks@),
            ranks@.to_set() == self@.tree.dom(),
    {
        let mut ranks: Vec<u64> = Vec::new();
        proof {
            let keys = self.tree.keys().remaining();
            assert(vstd::laws_cmp::obeys_cmp::<&u64>());
            assert(vstd::std_specs::btree::increasing_seq(keys));
            assert forall|i: int, j: int| 0 <= i < j < keys.len() implies *(#[trigger] keys[i])
                < *(#[trigger] keys[j]) by {
                assert(OrdSpec::cmp_spec(&keys[i], &keys[j]) is Less);
            }
            assert forall|i: int| 0 <= i < keys.len() implies self.tree@.contains_key(
                *(#[trigger] keys[i]),
            ) by {
                assert(keys.unref()[i] == *keys[i]);
                assert(keys.unref().to_set().contains(*keys[i]));
            }
        }
        for rank in it: self.tree.keys()
            invariant
                forall|i: int, j: int|
                    0 <= i < j < it.seq().len() ==> *(#[trigger] it.seq()[i])
                        < *(#[trigger] it.seq()[j]),
                forall|k: u64|
                    self.tree@.contains_key(k) ==> exists|i: int|
                        0 <= i < it.seq().len() && *(#[trigger] it.seq()[i]) == k,
                forall|i: int|
                    0 <= i < it.seq().len() ==> self.tree@.contains_key(*(#[trigger] it.seq()[i])),
                ranks@.len() == it.index(),
                forall|i: int|
                    #![trigger ranks@[i]]
                    #![trigger it.seq()[i]]
                    0 <= i < ranks@.len() ==> ranks@[i] == *it.seq()[i],
        {
            ranks.push(*rank);
        }
        assert(ranks@.to_set() =~= self@.tree.dom());
        ranks
    }

    /// The members with their scores, from the least score to the greatest; those whose
    /// scores are equal in the order in which they got them.
    pub fn members(&self) -> (list: Vec<(Vec<u8>, u64)>)
        requires
            self.inv(),
        ensures
            exists|ranks: Seq<u64>|
                rising(ranks) && ranks.to_set() == self@.tree.dom() && scored(list@)
                    == #[trigger] ranked(self@, ranks),
    {
        let ranks = self.ranks();
        let ghost set = self@;
        let mut list: Vec<(Vec<u8>, u64)> = Vec::new();
        let mut i: usize = 0;
        assert(scored(list@) =~= ranked(set, ranks@.take(0)));
        while i < ranks.len()
            invariant
                i <= ranks.len(),
                self.inv(),
                set == self@,
                scored(list@) == ranked(set, ranks@.take(i as int)),
            decreases ranks.len() - i,
        {
            let rank = ranks[i];
            let ghost before = scored(list@);
            if let Some(members) = self.tree.get(&rank) {
                let ghost names = byte_strings::names(members@);
                assert(names == bucket(set.tree, rank));
                let mut j: usize = 0;
                assert(before =~= before + with_scores(names.take(0), set.hash));
                while j < members.len()
                    invariant
                        j <= members.len(),
                        self.inv(),
                        set == self@,
                        names == byte_strings::names(members@),
                        names == bucket(set.tree, rank),
                        scored(list@) == before + with_scores(names.take(j as int), set.hash),
                    decreases members.len() - j,
                {
                    let ghost listed = list@;
                    let ghost name = names[j as int];
                    let member = members[j].clone();
                    assert(member@ =~= name);
                    assert(bucket(set.tree, rank).contains(name));
                    assert(set.ranks(name, rank));
                    if let Some(found) = self.hash.get(&member) {
                        let score = *found;
                        list.push((member, score));
                        proof {
                            assert(scored(list@) =~= scored(listed).push((name, score)));
                            assert(names.take(j + 1) =~= names.take(j as int).push(name));
                            assert(with_scores(names.take(j + 1), set.hash) =~= with_scores(
                                names.take(j as int),
                                set.hash,
                            ).push((name, score)));
                        }
                    }
                    j = j + 1;
                }
                assert(names.take(j as int) =~= names);
            } else {
                assert(before =~= before + with_scores(bucket(set.tree, rank), set.hash));
            }
            proof {
                assert(ranks@.take(i + 1).drop_last() =~= ranks@.take(i as int));
            }
            i = i + 1;
        }
        assert(ranks@.take(i as int) =~= ranks@);
        list
    }
}

/// A request keeps the two sides in agreement.
pub proof fn law_requests_keep_consistency(
    set: SortedSetModel,
    req: ZAddReq,
    members: Seq<(Seq<u8>, u64)>,
)
    requires
        set.consistent(),
    ensures
        set.after(req, members).consistent(),
    decreases members.len(),
{
    if members.len() > 0 {
        law_requests_keep_consistency(set, req, members.drop_last());
        law_scoring_keeps_consistency(
            set.after(req, members.drop_last()),
            members.last().0,
            members.last().1,
        );
    }
}

/// A member is listed under one rank at most, that of its score, and there once.
pub proof fn law_member_is_listed_once(
    set: SortedSetModel,
    member: Seq<u8>,
    one: u64,
    i: int,
    other: u64,
    j: int,
)
    requires
        set.consistent(),
        0 <= i < bucket(set.tree, one).len(),
        0 <= j < bucket(set.tree, other).len(),
        bucket(set.tree, one)[i] == member,
        bucket(set.tree, other)[j] == member,
    ensures
        one == other,
        i == j,
        set.ranks(member, one),
{
    assert(bucket(set.tree, one).contains(member));
    assert(bucket(set.tree, other).contains(member));
    assert(bucket(set.tree, one).no_duplicates());
}

/// Without conditions a member has the score that it was last given, and a member
/// that the request does not name has the score that it had.
pub proof fn law_last_score_counts(
    set: SortedSetModel,
    req: ZAddReq,
    members: Seq<(Seq<u8>, u64)>,
    member: Seq<u8>,
)
    requires
        !req.nx,
        !req.xx,
        !req.gt,
        !req.lt,
    ensures
        forall|i: int|
            0 <= i < members.len() && (#[trigger] members[i]).0 == member && (forall|j: int|
                i < j < members.len() ==> (#[trigger] members[j]).0 != member) ==> set.after(
                req,
                members,
            ).score_of(member) == Some(members[i].1),
        (forall|i: int| 0 <= i < members.len() ==> (#[trigger] members[i]).0 != member)
            ==> set.after(req, members).score_of(member) == set.score_of(member),
    decreases members.len(),
{
    if members.len() > 0 {
        let rest = members.drop_last();
        law_last_score_counts(set, req, rest, member);
        assert forall|i: int|
            0 <= i < members.len() && (#[trigger] members[i]).0 == member && (forall|j: int|
                i < j < members.len() ==> (#[trigger] members[j]).0 != member) implies set.after(
            req,
            members,
        ).score_of(member) == Some(members[i].1) by {
            if i < rest.len() {
                assert(members[rest.len() as int].0 != member);
                assert(rest[i] == members[i]);
                assert forall|j: int| i < j < rest.len() implies (#[trigger] rest[j]).0
                    != member by {
                    assert(members[j].0 != member);
                }
            }
        }
        if forall|i: int| 0 <= i < members.len() ==> (#[trigger] members[i]).0 != member {
            assert forall|i: int| 0 <= i < rest.len() implies (#[trigger] rest[i]).0 != member by {
                assert(members[i].0 != member);
            }
            assert(members[rest.len() as int].0 != member);
        }
    }
}

/// Under each condition a member that is there keeps its score (`nx`), does not get a
/// lesser one (`gt`) or a greater one (`lt`); it is never gone.
pub proof fn law_conditions(
    set: SortedSetModel,
    req: ZAddReq,
    members: Seq<(Seq<u8>, u64)>,
    member: Seq<u8>,
)
    requires
        set.score_of(member) is Some,
    ensures
        set.after(req, members).score_of(member) is Some,
        req.nx ==> set.after(req, members).score_of(member) == set.score_of(member),
        req.gt ==> score::rank(set.after(req, members).score_of(member)->0) >= score::rank(
            set.score_of(member)->0,
        ),
        req.lt ==> score::rank(set.after(req, members).score_of(member)->0) <= score::rank(
            set.score_of(member)->0,
        ),
    decreases members.len(),
{
    if members.len() > 0 {
        law_conditions(set, req, members.drop_last(), member);
    }
}

/// Under the condition `xx` no member is new.
pub proof fn law_xx_adds_nothing(
    set: SortedSetModel,
    req: ZAddReq,
    members: Seq<(Seq<u8>, u64)>,
    n: nat,
)
    requires
        req.xx,
        n <= members.len(),
    ensures
        set.after(req, members.take(n as int)).hash.dom() == set.hash.dom(),
        set.additions(req, members, n) == 0,
    decreases n,
{
    if n > 0 {
        law_xx_adds_nothing(set, req, members, (n - 1) as nat);
        assert(members.take(n as int).drop_last() =~= members.take(n - 1));
        assert(set.after(req, members.take(n as int)).hash.dom() =~= set.hash.dom());
    }
}

/// What is counted as new is what the set grows by; whatever is new is changed, and
/// no more is changed than the request names.
pub proof fn law_counts(
    set: SortedSetModel,
    req: ZAddReq,
    members: Seq<(Seq<u8>, u64)>,
    n: nat,
)
    requires
        set.hash.dom().finite(),
        n <= members.len(),
    ensures
        set.after(req, members.take(n as int)).hash.dom().finite(),
        set.after(req, members.take(n as int)).hash.len() == set.hash.len() + set.additions(
            req,
            members,
            n,
        ),
        set.additions(req, members, n) <= set.changes(req, members, n) <= n,
    decreases n,
{
    if n > 0 {
        law_counts(set, req, members, (n - 1) as nat);
        let shorter = members.take(n as int).drop_last();
        assert(shorter =~= members.take(n - 1));
        let before = set.after(req, shorter);
        let (member, score) = members[n - 1];
        if req.accepts(before.score_of(member), score) {
            assert(before.hash.insert(member, score).dom() =~= before.hash.dom().insert(member));
        }
    }
}

/// Applying a request to members and then to others is applying it to all of them.
pub proof fn law_requests_add_up(
    set: SortedSetModel,
    req: ZAddReq,
    first: Seq<(Seq<u8>, u64)>,
    second: Seq<(Seq<u8>, u64)>,
)
    ensures
        set.after(req, first + second) == set.after(req, first).after(req, second),
    decreases second.len(),
{
    if second.len() == 0 {
        assert(first + second =~= first);
    } else {
        law_requests_add_up(set, req, first, second.drop_last());
        assert((first + second).drop_last() =~= first + second.drop_last());
    }
}

/// A sorted set with the members of some ranks only.
spec fn restricted(set: SortedSetModel, ranks: Set<u64>) -> SortedSetModel {
    SortedSetModel {
        tree: set.tree.restrict(ranks),
        hash: Map::new(
            |member: Seq<u8>| set.hash.contains_key(member) && ranks.contains(
                score::rank(set.hash[member]),
            ),
            |member: Seq<u8>| set.hash[member],
        ),
    }
}

/// A sorted set with the members of some ranks, and the first ones of another.
spec fn restricted_more(
    set: SortedSetModel,
    ranks: Set<u64>,
    rank: u64,
    n: int,
) -> SortedSetModel {
    let base = restricted(set, ranks);
    let names = bucket(set.tree, rank).take(n);
    SortedSetModel {
        tree: if n == 0 {
            base.tree
        } else {
            base.tree.insert(rank, names)
        },
        hash: Map::new(
            |member: Seq<u8>| base.hash.contains_key(member) || names.contains(member),
            |member: Seq<u8>| set.hash[member],
        ),
    }
}

/// Scoring the members of one rank, one after the other.
proof fn lemma_rebuild_rank(
    set: SortedSetModel,
    req: ZAddReq,
    ranks: Set<u64>,
    rank: u64,
    n: int,
)
    requires
        set.consistent(),
        !req.xx,
        !ranks.contains(rank),
        0 <= n <= bucket(set.tree, rank).len(),
    ensures
        restricted(set, ranks).after(
            req,
            with_scores(bucket(set.tree, rank).take(n), set.hash),
        ) == restricted_more(set, ranks, rank, n),
    decreases n,
{
    let names = bucket(set.tree, rank);
    let pairs = with_scores(names.take(n), set.hash);
    if n == 0 {
        assert(pairs =~= Seq::empty());
        assert(restricted_more(set, ranks, rank, 0) =~= restricted(set, ranks));
    } else {
        lemma_rebuild_rank(set, req, ranks, rank, n - 1);
        let member = names[n - 1];
        let before = restricted_more(set, ranks, rank, n - 1);
        assert(pairs.drop_last() =~= with_scores(names.take(n - 1), set.hash));
        assert(names.take(n) =~= names.take(n - 1).push(member));
        assert(names.contains(member));
        assert(set.ranks(member, rank));
        assert(!names.take(n - 1).contains(member)) by {
            assert(names.no_duplicates());
        }
        assert(before.score_of(member) is None);
        assert(bucket(before.tree, rank) =~= names.take(n - 1));
        let after = before.with_score(member, set.hash[member]);
        assert forall|other: Seq<u8>| #[trigger] names.take(n).contains(other) <==> names.take(
            n - 1,
        ).contains(other) || other == member by {
            byte_strings::lemma_push_contains(names.take(n - 1), member, other);
        }
        assert(after.tree =~= restricted_more(set, ranks, rank, n).tree);
        assert(after.hash =~= restricted_more(set, ranks, rank, n).hash);
    }
}

/// Scoring the members of some ranks, rank by rank.
proof fn lemma_rebuild(set: SortedSetModel, req: ZAddReq, ranks: Seq<u64>)
    requires
        set.consistent(),
        !req.xx,
        rising(ranks),
        forall|i: int| 0 <= i < ranks.len() ==> set.tree.contains_key(#[trigger] ranks[i]),
    ensures
        SortedSetModel::empty().after(req, ranked(set, ranks)) == restricted(
            set,
            ranks.to_set(),
        ),
    decreases ranks.len(),
{
    if ranks.len() == 0 {
        assert(restricted(set, ranks.to_set()) =~= SortedSetModel::empty());
    } else {
        let rest = ranks.drop_last();
        let rank = ranks.last();
        let names = bucket(set.tree, rank);
        lemma_rebuild(set, req, rest);
        law_requests_add_up(
            SortedSetModel::empty(),
            req,
            ranked(set, rest),
            with_scores(names, set.hash),
        );
        assert(!rest.to_set().contains(rank)) by {
            if rest.contains(rank) {
                let i = choose|i: int| 0 <= i < rest.len() && rest[i] == rank;
                assert(ranks[i] < ranks[rest.len() as int]);
            }
        }
        lemma_rebuild_rank(set, req, rest.to_set(), rank, names.len() as int);
        assert(names.take(names.len() as int) =~= names);
        assert(set.tree.contains_key(ranks[rest.len() as int]));
        assert(ranks =~= rest.push(rank));
        rest.lemma_push_to_set_commute(rank);
        let whole = restricted(set, ranks.to_set());
        let more = restricted_more(set, rest.to_set(), rank, names.len() as int);
        assert(set.tree[rank].len() > 0);
        assert(more.tree =~= whole.tree);
        assert forall|member: Seq<u8>| #[trigger]
            names.contains(member) <==> set.ranks(member, rank) by {}
        assert(more.hash =~= whole.hash);
    }
}

/// Scoring the listed members of a sorted set in an empty one makes the same set.
pub proof fn law_listed_members_rebuild_the_set(
    set: SortedSetModel,
    req: ZAddReq,
    ranks: Seq<u64>,
)
    requires
        set.consistent(),
        !req.xx,
        rising(ranks),
        ranks.to_set() == set.tree.dom(),
    ensures
        SortedSetModel::empty().after(req, ranked(set, ranks)) == set,
{
    assert forall|i: int| 0 <= i < ranks.len() implies set.tree.contains_key(
        #[trigger] ranks[i],
    ) by {
        assert(ranks.to_set().contains(ranks[i]));
    }
    lemma_rebuild(set, req, ranks);
    assert forall|member: Seq<u8>| set.hash.contains_key(member) implies set.tree.contains_key(
        score::rank(#[trigger] set.hash[member]),
    ) by {
        assert(bucket(set.tree, score::rank(set.hash[member])).contains(member));
    }
    assert(restricted(set, set.tree.dom()) =~= set);
}

/// Members with their scores keep their places; no set has members of no rank.
pub proof fn law_scored_members_keep_their_places(
    members: Seq<(Vec<u8>, u64)>,
    i: int,
    rank: u64,
    member: Seq<u8>,
)
    requires
        0 <= i < members.len(),
    ensures
        scored(members).len() == members.len(),
        scored(members)[i] == (members[i].0@, members[i].1),
        bucket(SortedSetModel::empty().tree, rank).len() == 0,
        SortedSetModel::empty().score_of(member) is None,
{
}

/// The score of a member is what the set holds for it, and the members of a rank are those
/// that the set lists there.
pub proof fn law_what_a_set_holds(set: SortedSetModel, member: Seq<u8>, rank: u64)
    ensures
        set.score_of(member) is Some <==> set.hash.contains_key(member),
        set.hash.contains_key(member) ==> set.score_of(member) == Some(set.hash[member]),
        set.tree.contains_key(rank) ==> bucket(set.tree, rank) == set.tree[rank],
        !set.tree.contains_key(rank) ==> bucket(set.tree, rank).len() == 0,
        set.consistent() ==> (bucket(set.tree, rank).contains(member) <==> set.hash.contains_key(
            member,
        ) && score::rank(set.hash[member]) == rank),
        set.consistent() ==> bucket(set.tree, rank).no_duplicates(),
        set.consistent() ==> (set.tree.contains_key(rank) <==> bucket(set.tree, rank).len() > 0),
{
}

/// Whether a request lets a member have a score, given the score that it has: a new member
/// unless only old ones are asked for; an old one unless only new ones are asked for, and
/// only upwards or downwards if that is asked for.
pub open spec fn lets(req: ZAddReq, current: Option<u64>, score: u64) -> bool {
    &&& current is None ==> !req.xx
    &&& current is Some ==> !req.nx
    &&& current is Some && req.gt ==> score::rank(current->0) < score::rank(score)
    &&& current is Some && req.lt ==> score::rank(score) < score::rank(current->0)
}

/// One more member of a request gets its score exactly if the request lets it, whatever
/// came before; other members keep theirs.
pub proof fn law_one_more_score(
    set: SortedSetModel,
    req: ZAddReq,
    members: Seq<(Seq<u8>, u64)>,
    member: Seq<u8>,
    score: u64,
    other: Seq<u8>,
)
    ensures
        ({
            let before = set.after(req, members);
            let later = set.after(req, members.push((member, score)));
            &&& other != member ==> later.score_of(other) == before.score_of(other)
            &&& lets(req, before.score_of(member), score) ==> later.score_of(member) == Some(score)
            &&& !lets(req, before.score_of(member), score) ==> later == before
        }),
        set.after(req, Seq::empty()) == set,
{
    let more = members.push((member, score));
    assert(more.drop_last() =~= members);
}

/// A member that gets a score comes last among those of its rank, and the others keep
/// their order.
pub proof fn law_one_more_place(
    set: SortedSetModel,
    req: ZAddReq,
    members: Seq<(Seq<u8>, u64)>,
    member: Seq<u8>,
    score: u64,
    rank: u64,
)
    requires
        set.consistent(),
        lets(req, set.after(req, members).score_of(member), score),
    ensures
        ({
            let before = bucket(set.after(req, members).tree, rank);
            let later = bucket(set.after(req, members.push((member, score))).tree, rank);
            let others = before.filter(|other: Seq<u8>| other != member);
            later == (if rank == score::rank(score) {
                others.push(member)
            } else {
                others
            })
        }),
{
    let more = members.push((member, score));
    assert(more.drop_last() =~= members);
    law_requests_keep_consistency(set, req, members);
    let before = set.after(req, members);
    let list = bucket(before.tree, rank);
    let tree = match before.score_of(member) {
        Some(current) => unlisted(before.tree, score::rank(current), member),
        None => before.tree,
    };
    assert forall|r: u64| #[trigger] bucket(tree, r) == without(bucket(before.tree, r), member) by {
        let held = bucket(before.tree, r);
        assert(held.contains(member) <==> before.ranks(member, r));
        if !held.contains(member) {
            lemma_without_absent(held, member);
        }
        if let Some(current) = before.score_of(member) {
            if r == score::rank(current) {
                assert(bucket(tree, r) =~= without(held, member));
            }
        }
    }
    let later = set.after(req, more);
    assert(later == before.with_score(member, score));
    assert(bucket(later.tree, rank) == (if rank == score::rank(score) {
        bucket(tree, rank).push(member)
    } else {
        bucket(tree, rank)
    }));
    lemma_without_filters(list, member, |other: Seq<u8>| other != member);
}

/// A list without a member is the list of those that are not the member.
proof fn lemma_without_filters(
    members: Seq<Seq<u8>>,
    member: Seq<u8>,
    keep: spec_fn(Seq<u8>) -> bool,
)
    requires
        forall|other: Seq<u8>| #[trigger] keep(other) <==> other != member,
    ensures
        members.filter(keep) == without(members, member),
    decreases members.len(),
{
    reveal(Seq::filter);
    if members.len() > 0 {
        lemma_without_filters(members.drop_last(), member, keep);
        assert(members =~= members.drop_last().push(members.last()));
        lemma_without_push(members.drop_last(), members.last(), member);
    } else {
        assert(members.filter(keep) =~= without(members, member));
    }
}

/// A list without a member that it does not have is the same list.
proof fn lemma_without_absent(members: Seq<Seq<u8>>, member: Seq<u8>)
    requires
        !members.contains(member),
    ensures
        without(members, member) == members,
    decreases members.len(),
{
    if members.len() == 0 {
        reveal(Seq::filter);
        assert(without(members, member) =~= members);
    } else {
        let rest = members.drop_last();
        let last = members.last();
        assert(members =~= rest.push(last));
        byte_strings::lemma_push_contains(rest, last, member);
        lemma_without_absent(rest, member);
        lemma_without_push(rest, last, member);
    }
}

/// One more member of a request is counted as changed exactly if it gets its score, and as
/// new exactly if it gets its first one.
pub proof fn law_one_more_count(
    set: SortedSetModel,
    req: ZAddReq,
    members: Seq<(Seq<u8>, u64)>,
    n: nat,
)
    requires
        n < members.len(),
    ensures
        set.changes(req, members, 0) == 0,
        set.additions(req, members, 0) == 0,
        ({
            let current = set.after(req, members.take(n as int)).score_of(members[n as int].0);
            let gets = lets(req, current, members[n as int].1);
            &&& set.changes(req, members, n + 1) - set.changes(req, members, n) == (if gets {
                1int
            } else {
                0
            })
            &&& set.additions(req, members, n + 1) - set.additions(req, members, n) == (if gets
                && current is None {
                1int
            } else {
                0
            })
        }),
{
}

/// The listed members stand in the order of their scores as numbers, each with the score
/// that it has.
pub proof fn law_listing_is_sorted(set: SortedSetModel, ranks: Seq<u64>, i: int, j: int)
    requires
        set.consistent(),
        forall|a: int, b: int| 0 <= a < b < ranks.len() ==> ranks[a] < ranks[b],
        0 <= i <= j < ranked(set, ranks).len(),
    ensures
        ({
            let list = ranked(set, ranks);
            &&& score::rank(list[i].1) <= score::rank(list[j].1)
            &&& set.score_of(list[i].0) == Some(list[i].1)
            &&& ranks.contains(score::rank(list[i].1))
        }),
    decreases ranks.len(),
{
    let rest = ranks.drop_last();
    let last = ranks.last();
    let names = bucket(set.tree, last);
    let first = ranked(set, rest);
    let list = ranked(set, ranks);
    assert forall|k: int| first.len() <= k < list.len() implies set.score_of(
        (#[trigger] list[k]).0,
    ) == Some(list[k].1) && score::rank(list[k].1) == last by {
        let name = names[k - first.len()];
        assert(names.contains(name));
        assert(list[k] == (name, set.hash[name]));
    }
    assert(ranks[ranks.len() - 1] == last);
    if i < first.len() {
        law_listing_is_sorted(set, rest, i, i);
        let at = choose|at: int| 0 <= at < rest.len() && rest[at] == score::rank(first[i].1);
        assert(ranks[at] == rest[at]);
        assert(list[i] == first[i]);
        if j < first.len() {
            law_listing_is_sorted(set, rest, i, j);
            assert(list[j] == first[j]);
        } else {
            assert(ranks[at] < ranks[ranks.len() - 1]);
        }
    }
}

/// Every member of a set is listed, if all the ranks of the set are gone through.
pub proof fn law_listing_is_complete(set: SortedSetModel, ranks: Seq<u64>, member: Seq<u8>)
    requires
        set.consistent(),
        set.hash.contains_key(member),
        ranks.contains(score::rank(set.hash[member])),
    ensures
        ranked(set, ranks).contains((member, set.hash[member])),
    decreases ranks.len(),
{
    let rest = ranks.drop_last();
    let last = ranks.last();
    let rank = score::rank(set.hash[member]);
    let list = ranked(set, ranks);
    let first = ranked(set, rest);
    if rank == last {
        let names = bucket(set.tree, last);
        assert(names.contains(member));
        let k = choose|k: int| 0 <= k < names.len() && names[k] == member;
        assert(list[first.len() + k] == (member, set.hash[member]));
    } else {
        let at = choose|at: int| 0 <= at < ranks.len() && ranks[at] == rank;
        assert(rest[at] == rank);
        law_listing_is_complete(set, rest, member);
        let k = choose|k: int| 0 <= k < first.len() && first[k] == (member, set.hash[member]);
        assert(list[k] == first[k]);
    }
}

/// Rising ranks are each less than all that follow.
pub proof fn law_rising_ranks(ranks: Seq<u64>)
    ensures
        rising(ranks) <==> forall|a: int, b: int| 0 <= a < b < ranks.len() ==> ranks[a] < ranks[b],
{
}

} // verus!
