//! What holds of the commands on stored values as a whole.

use crate::cache::cas;
use crate::cache::cas::{AtomicModel, ComputeCommand, OpModel, UpdateModel, WriteCommand};
use crate::cache::hash;
use crate::cache::list;
use crate::cache::sorted_set;
use crate::cache::sorted_set::{SortedSet, SortedSetModel, ZAddReq};
use crate::cache::value_object;
use crate::cache::value_object::{
    DataModel, FieldModel, HashValue, MyValue, StoredModel, ValueObject,
};
use crate::cache::zset;
use crate::utils::byte_strings;
use crate::utils::bytes_map::BytesMap;
use crate::value::Reply;
use std::collections::VecDeque;
use vstd::prelude::*;

verus! {

/// Replaying a command with the version that was noted down does to the same value
/// what the command did when it was noted down.
pub proof fn law_replay<C: ComputeCommand>(
    cmd: C,
    queue: Seq<AtomicModel>,
    found: Option<StoredModel>,
)
    requires
        found is Some ==> found->0.version < u64::MAX,
    ensures
        cas::compute_op(cmd, UpdateModel::CAS(cas::noted_version(found)), found)
            == cas::compute_op(cmd, UpdateModel::Snapshot(queue), found),
{
}

/// Replaying a command that makes its own reply with the version that was noted down
/// does to the same value what the command did when it was noted down, and gives the
/// same reply.
pub proof fn law_replay_of_writes<C: WriteCommand>(
    cmd: C,
    queue: Seq<AtomicModel>,
    found: Option<StoredModel>,
)
    requires
        found is Some ==> found->0.version < u64::MAX,
    ensures
        cas::write_op(cmd, UpdateModel::CAS(cas::noted_version(found)), found) == cas::write_op(
            cmd,
            UpdateModel::Snapshot(queue),
            found,
        ),
        cas::write_reply_of(cmd, UpdateModel::CAS(cas::noted_version(found)), found)
            == cas::write_reply_of(cmd, UpdateModel::Snapshot(queue), found),
{
}

/// A version is made once: what a command that is to make it stores over a value has
/// that version, and over that no command that is to make it does anything.
pub proof fn law_version_is_made_once<C: ComputeCommand, D: ComputeCommand>(
    cmd: C,
    again: D,
    version: u64,
    found: StoredModel,
)
    requires
        version >= 1,
        cas::compute_op(cmd, UpdateModel::CAS(version), Some(found)) is Put,
    ensures
        cas::compute_op(cmd, UpdateModel::CAS(version), Some(found))->0.version == version,
        cas::compute_op(
            again,
            UpdateModel::CAS(version),
            Some(cas::compute_op(cmd, UpdateModel::CAS(version), Some(found))->0),
        ) is Nop,
{
}

/// The version that a command is noted down with is that of what it stores.
pub proof fn law_noted_version_is_stored<C: ComputeCommand, W: WriteCommand>(
    cmd: C,
    write: W,
    queue: Seq<AtomicModel>,
    found: Option<StoredModel>,
)
    ensures
        cas::compute_op(cmd, UpdateModel::Snapshot(queue), found) matches OpModel::Put(value)
            ==> value.version == cas::noted_version(found),
        cas::write_op(write, UpdateModel::Snapshot(queue), found) matches OpModel::Put(value)
            ==> value.version == cas::noted_version(found),
{
}

/// No command changes when a value expires.
pub proof fn law_expiry_is_kept<C: ComputeCommand, W: WriteCommand>(
    cmd: C,
    write: W,
    update: UpdateModel,
    found: StoredModel,
)
    ensures
        cas::compute_op(cmd, update, Some(found)) matches OpModel::Put(value) ==> value.expires_at
            == found.expires_at,
        cas::write_op(write, update, Some(found)) matches OpModel::Put(value) ==> value.expires_at
            == found.expires_at,
{
}

/// Pushing onto a list, or where nothing is stored, replies with the length of the
/// list, which grows by the number of elements; the element pushed last comes first
/// in a list that was there.
pub proof fn law_push_grows_the_list(
    elements: Seq<Seq<u8>>,
    update: UpdateModel,
    found: Option<StoredModel>,
)
    requires
        found is Some ==> found->0.data is List,
        !(update is CAS),
    ensures
        list::push_op(elements, update, found) is Put,
        ({
            let data = list::push_op(elements, update, found)->0.data;
            let before = if found is Some {
                found->0.data->List_0
            } else {
                Seq::empty()
            };
            &&& data is List
            &&& data->List_0.len() == elements.len() + before.len()
            &&& list::length_reply(data) == Reply::Integer(
                (elements.len() + before.len()) as i64,
            )
            &&& data->List_0.skip(elements.len() as int) =~= before
            &&& found is Some && elements.len() > 0 ==> data->List_0[0] == elements.last()
        }),
{
}

/// Setting fields of a hash gives each field the value that was set last, and leaves
/// the others as they were; the number of new fields is what the hash grows by.
pub proof fn law_set_fields(
    fields: Map<Seq<u8>, FieldModel>,
    elements: Seq<(Seq<u8>, FieldModel)>,
    field: Seq<u8>,
)
    requires
        fields.dom().finite(),
    ensures
        hash::with_all(fields, elements).dom().finite(),
        hash::with_all(fields, elements).len() == fields.len() + hash::new_fields(fields, elements),
        forall|i: int|
            0 <= i < elements.len() && (#[trigger] elements[i]).0 == field && (forall|j: int|
                i < j < elements.len() ==> (#[trigger] elements[j]).0 != field) ==> hash::with_all(
                fields,
                elements,
            ).contains_pair(field, elements[i].1),
        (forall|i: int| 0 <= i < elements.len() ==> (#[trigger] elements[i]).0 != field) ==> (
        hash::with_all(fields, elements).contains_key(field) == fields.contains_key(field)
            && hash::with_all(fields, elements)[field] == fields[field]),
    decreases elements.len(),
{
    if elements.len() > 0 {
        let rest = elements.drop_last();
        law_set_fields(fields, rest, field);
        let before = hash::with_all(fields, rest);
        let (last, value) = elements.last();
        assert(before.insert(last, value).dom() =~= before.dom().insert(last));
        assert forall|i: int|
            0 <= i < elements.len() && (#[trigger] elements[i]).0 == field && (forall|j: int|
                i < j < elements.len() ==> (#[trigger] elements[j]).0
                    != field) implies hash::with_all(fields, elements).contains_pair(
            field,
            elements[i].1,
        ) by {
            if i < rest.len() {
                assert(elements[rest.len() as int].0 != field);
                assert(rest[i] == elements[i]);
                assert forall|j: int| i < j < rest.len() implies (#[trigger] rest[j]).0
                    != field by {
                    assert(elements[j].0 != field);
                }
            }
        }
        if forall|i: int| 0 <= i < elements.len() ==> (#[trigger] elements[i]).0 != field {
            assert forall|i: int| 0 <= i < rest.len() implies (#[trigger] rest[i]).0 != field by {
                assert(elements[i].0 != field);
            }
            assert(elements[rest.len() as int].0 != field);
        }
    }
}

/// A command on data of another kind changes nothing.
pub proof fn law_wrong_kind_is_left_alone(
    elements: Seq<Seq<u8>>,
    fields: Seq<(Seq<u8>, FieldModel)>,
    update: UpdateModel,
    found: StoredModel,
)
    ensures
        !(found.data is List) ==> list::push_op(elements, update, Some(found)) is Nop,
        !(found.data is Hash) ==> hash::set_in(fields, found.data).0 is None,
{
}

/// What is stored where nothing is has the first version and never expires.
pub proof fn law_first_values(data: DataModel)
    ensures
        cas::first(data).data == data,
        cas::first(data).version == 1,
        cas::first(data).expires_at == 0,
{
}

/// Whether a command may be taken: one that is to make a version only over the version
/// before it.
pub open spec fn may_be_taken(update: UpdateModel, value: StoredModel) -> bool {
    update matches UpdateModel::CAS(version) ==> value.version == version - 1
}

/// A command is stored exactly if it may be taken and changes the data: what it makes of
/// the data is stored, with the next version unless it is taken as it comes, and the
/// expiry stays. Where nothing is stored, its first data is.
pub proof fn law_what_a_command_stores<C: ComputeCommand>(
    cmd: C,
    update: UpdateModel,
    value: StoredModel,
)
    requires
        value.version < u64::MAX,
    ensures
        ({
            let op = cas::compute_op(cmd, update, Some(value));
            &&& op is Put <==> may_be_taken(update, value) && cmd.mutated(value.data) is Some
            &&& op matches OpModel::Put(stored) ==> {
                &&& Some(stored.data) == cmd.mutated(value.data)
                &&& stored.expires_at == value.expires_at
                &&& stored.version == value.version + (if update is Plain {
                    0int
                } else {
                    1
                })
            }
        }),
        ({
            let op = cas::compute_op(cmd, update, None);
            &&& op is Put
            &&& op->0.data == cmd.initial()
            &&& op->0.version == 1
            &&& op->0.expires_at == 0
        }),
{
}

/// The same of a command that makes its own reply: it always makes the next version, and
/// its reply is the one that it makes, or none where it may not be taken.
pub proof fn law_what_a_write_stores<C: WriteCommand>(
    cmd: C,
    update: UpdateModel,
    value: StoredModel,
)
    requires
        value.version < u64::MAX,
    ensures
        ({
            let op = cas::write_op(cmd, update, Some(value));
            let reply = cas::write_reply_of(cmd, update, Some(value));
            &&& op is Put <==> may_be_taken(update, value) && cmd.written(value.data).0 is Some
            &&& op matches OpModel::Put(stored) ==> {
                &&& Some(stored.data) == cmd.written(value.data).0
                &&& stored.expires_at == value.expires_at
                &&& stored.version == value.version + 1
            }
            &&& may_be_taken(update, value) ==> reply == cmd.written(value.data).1
            &&& !may_be_taken(update, value) ==> reply == Reply::Integer(0)
        }),
        ({
            let op = cas::write_op(cmd, update, None);
            &&& op is Put
            &&& op->0.data == cmd.initial().0
            &&& op->0.version == 1
            &&& op->0.expires_at == 0
            &&& cas::write_reply_of(cmd, update, None) == cmd.initial().1
        }),
{
}

/// A command is noted down, last, with the version after the stored one, or the first;
/// it is noted down only where commands are, and nothing else is touched.
pub proof fn law_what_is_noted_down(
    queue: Seq<AtomicModel>,
    request: cas::OperationModel,
    version: u64,
    found: Option<StoredModel>,
)
    requires
        found is Some ==> found->0.version < u64::MAX,
    ensures
        UpdateModel::Plain.noted(request, version) == UpdateModel::Plain,
        UpdateModel::CAS(version).noted(request, version) == UpdateModel::CAS(version),
        UpdateModel::Snapshot(queue).noted(request, version) is Snapshot,
        ({
            let noted = UpdateModel::Snapshot(queue).noted(request, version)->Snapshot_0;
            &&& noted.len() == queue.len() + 1
            &&& noted.drop_last() =~= queue
            &&& noted.last().request == request
            &&& noted.last().version == version
        }),
        found is None ==> cas::noted_version(found) == 1,
        found is Some ==> cas::noted_version(found) == found->0.version + 1,
{
}

/// The elements that are pushed stand at the front of the list in the opposite order, the
/// last one first, and the list follows as it was.
pub proof fn law_pushed_elements_are_reversed(
    elements: Seq<Seq<u8>>,
    before: Seq<Seq<u8>>,
    i: int,
)
    ensures
        ({
            let after = list::pushed(elements, before);
            &&& after.len() == elements.len() + before.len()
            &&& 0 <= i < elements.len() ==> after[i] == elements[elements.len() - 1 - i]
            &&& 0 <= i < before.len() ==> after[elements.len() + i] == before[i]
        }),
{
}

/// Pushing elements and then others is pushing all of them in that order; pushing one
/// puts it before the list.
pub proof fn law_pushes_add_up(
    first: Seq<Seq<u8>>,
    second: Seq<Seq<u8>>,
    before: Seq<Seq<u8>>,
    element: Seq<u8>,
)
    ensures
        list::pushed(first + second, before) == list::pushed(second, list::pushed(first, before)),
        list::pushed(seq![element], before) == seq![element] + before,
        list::pushed(Seq::empty(), before) == before,
{
    assert(list::pushed(first + second, before) =~= list::pushed(
        second,
        list::pushed(first, before),
    ));
    assert(list::pushed(seq![element], before) =~= seq![element] + before);
    assert(list::pushed(Seq::empty(), before) =~= before);
}

/// A push on a key that holds a list puts the elements before it, the last one first; on
/// a key that holds nothing it stores them as they came. What holds something else, or
/// may not be changed, is left as it is. The version goes up by one unless the push is
/// taken as it comes, and the expiry stays.
pub proof fn law_push_effects(
    elements: Seq<Seq<u8>>,
    update: UpdateModel,
    value: StoredModel,
    i: int,
)
    requires
        value.version < u64::MAX,
    ensures
        ({
            let op = list::push_op(elements, update, Some(value));
            &&& op is Put <==> value.data is List && may_be_taken(update, value)
            &&& op matches OpModel::Put(stored) ==> {
                let held = value.data->List_0;
                let list = stored.data->List_0;
                &&& stored.data is List
                &&& list.len() == elements.len() + held.len()
                &&& 0 <= i < elements.len() ==> list[i] == elements[elements.len() - 1 - i]
                &&& 0 <= i < held.len() ==> list[elements.len() + i] == held[i]
                &&& stored.expires_at == value.expires_at
                &&& stored.version == value.version + (if update is Plain {
                    0int
                } else {
                    1
                })
            }
        }),
        list::push_op(elements, update, None) == OpModel::Put(
            StoredModel { data: DataModel::List(elements), expires_at: 0, version: 1 },
        ),
{
}

/// The command that pushes elements says so, does so, and replies with the length of the
/// list; data of another kind it leaves alone.
pub proof fn law_push_command(req: list::LPushReq, data: DataModel, i: int)
    ensures
        req.spec_key() == req.key@,
        req.operation() == (cas::OperationModel::LPush {
            key: req.key@,
            elements: byte_strings::names(req.elements@),
        }),
        req.initial() == DataModel::List(byte_strings::names(req.elements@)),
        req.mutated(data) is Some <==> data is List,
        data is List ==> req.mutated(data)->0 is List,
        data is List && 0 <= i < req.elements@.len() ==> req.mutated(data)->0->List_0[i]
            == req.elements@[req.elements@.len() - 1 - i]@,
        data is List && 0 <= i < data->List_0.len() ==> req.mutated(
            data,
        )->0->List_0[req.elements@.len() + i] == data->List_0[i],
        data is List ==> req.mutated(data)->0->List_0.len() == req.elements@.len()
            + data->List_0.len(),
        data is List ==> list::LPushReq::extracted(data) == Reply::Integer(
            data->List_0.len() as i64,
        ),
        !(data is List) ==> list::LPushReq::extracted(data) == Reply::Error(
            "Key exists but is not a List"@,
        ),
{
}

/// Setting fields and then others is setting all of them in that order; setting one puts
/// its value under the field and leaves the others as they were.
pub proof fn law_set_fields_add_up(
    fields: Map<Seq<u8>, FieldModel>,
    first: Seq<(Seq<u8>, FieldModel)>,
    second: Seq<(Seq<u8>, FieldModel)>,
    field: Seq<u8>,
    value: FieldModel,
)
    ensures
        hash::with_all(fields, first + second) == hash::with_all(
            hash::with_all(fields, first),
            second,
        ),
        hash::new_fields(fields, first + second) == hash::new_fields(fields, first)
            + hash::new_fields(hash::with_all(fields, first), second),
        hash::with_all(fields, seq![(field, value)]) == fields.insert(field, value),
        hash::with_all(fields, Seq::empty()) == fields,
        hash::new_fields(fields, seq![(field, value)]) == (if fields.contains_key(field) {
            0nat
        } else {
            1nat
        }),
        hash::new_fields(fields, Seq::empty()) == 0,
    decreases second.len(),
{
    let one = seq![(field, value)];
    assert(one.drop_last() =~= Seq::empty());
    assert(hash::with_all(fields, one.drop_last()) == fields);
    assert(hash::new_fields(fields, one.drop_last()) == 0);
    if second.len() == 0 {
        assert(first + second =~= first);
    } else {
        law_set_fields_add_up(fields, first, second.drop_last(), field, value);
        assert((first + second).drop_last() =~= first + second.drop_last());
    }
}

/// The reply to setting fields of a hash is by how many fields the hash has grown, and the
/// hash is what was there with the fields set; data of another kind is left alone, and
/// the reply says so.
pub proof fn law_set_reply_is_the_growth(elements: Seq<(Seq<u8>, FieldModel)>, data: DataModel)
    requires
        data is Hash ==> data->Hash_0.dom().finite(),
    ensures
        ({
            let (after, reply) = hash::set_in(elements, data);
            &&& after is Some <==> data is Hash
            &&& data is Hash ==> after->0 is Hash
            &&& data is Hash ==> reply == Reply::Integer(
                (after->0->Hash_0.len() - data->Hash_0.len()) as i64,
            )
            &&& !(data is Hash) ==> reply == Reply::Error(
                "WRONGTYPE Operation against a key holding the wrong kind of value"@,
            )
        }),
{
    if data is Hash {
        law_set_fields(data->Hash_0, elements, Seq::empty());
    }
}

/// The fields of a hash after fields were set: each of them has the value that was set
/// last, and every other field the value that it had, if it was there.
pub proof fn law_set_data(
    elements: Seq<(Seq<u8>, FieldModel)>,
    fields: Map<Seq<u8>, FieldModel>,
    field: Seq<u8>,
    i: int,
)
    requires
        fields.dom().finite(),
        0 <= i < elements.len() ==> elements[i].0 == field && (forall|j: int|
            i < j < elements.len() ==> (#[trigger] elements[j]).0 != field),
        !(0 <= i < elements.len()) ==> forall|j: int|
            0 <= j < elements.len() ==> (#[trigger] elements[j]).0 != field,
    ensures
        hash::set_in(elements, DataModel::Hash(fields)).0 is Some,
        hash::set_in(elements, DataModel::Hash(fields)).0->0 is Hash,
        ({
            let after = hash::set_in(elements, DataModel::Hash(fields)).0->0->Hash_0;
            &&& 0 <= i < elements.len() ==> after.contains_key(field) && after[field]
                == elements[i].1
            &&& !(0 <= i < elements.len()) ==> after.contains_key(field) == fields.contains_key(
                field,
            ) && after[field] == fields[field]
        }),
{
    law_set_fields(fields, elements, field);
}

/// The command that sets fields says so, does so to a hash, and makes one of its fields
/// where nothing is stored, replying with their number.
pub proof fn law_set_command(req: hash::HSetReq, data: DataModel, i: int)
    requires
        data is Hash ==> data->Hash_0.dom().finite(),
    ensures
        req.spec_key() == req.key@,
        req.operation() == (cas::OperationModel::HSet {
            key: req.key@,
            fields: hash::pairs(req.elements@),
        }),
        hash::pairs(req.elements@).len() == req.elements@.len(),
        0 <= i < req.elements@.len() ==> hash::pairs(req.elements@)[i] == (
            req.elements@[i].0@,
            req.elements@[i].1@,
        ),
        req.written(data).0 is Some <==> data is Hash,
        data is Hash ==> req.written(data).0->0 is Hash,
        data is Hash ==> req.written(data).0->0->Hash_0 == hash::with_all(
            data->Hash_0,
            hash::pairs(req.elements@),
        ),
        data is Hash ==> req.written(data).1 == Reply::Integer(
            (req.written(data).0->0->Hash_0.len() - data->Hash_0.len()) as i64,
        ),
        !(data is Hash) ==> req.written(data).1 == Reply::Error(
            "WRONGTYPE Operation against a key holding the wrong kind of value"@,
        ),
        req.initial().0 is Hash,
        req.initial().0->Hash_0 == hash::with_all(Map::empty(), hash::pairs(req.elements@)),
        req.initial().1 == Reply::Integer(req.elements@.len() as i64),
{
    law_set_reply_is_the_growth(hash::pairs(req.elements@), data);
}

/// Scoring members of a key's sorted set, or of a new one where nothing is stored, leaves
/// a sorted set there. Without conditions every member that the request names has the
/// last score given for it, and every other member the score that it had.
pub proof fn law_scoring_is_stored(
    req: ZAddReq,
    found: Option<StoredModel>,
    member: Seq<u8>,
    i: int,
)
    requires
        found is Some ==> found->0.data is ZSet,
        !req.nx,
        !req.xx,
        !req.gt,
        !req.lt,
        0 <= i < req.members@.len() ==> req.members@[i].0@ == member && (forall|j: int|
            i < j < req.members@.len() ==> (#[trigger] req.members@[j]).0@ != member),
        !(0 <= i < req.members@.len()) ==> forall|j: int|
            0 <= j < req.members@.len() ==> (#[trigger] req.members@[j]).0@ != member,
    ensures
        ({
            let data = zset::scored_in(req, found).data;
            let before = if found is Some {
                found->0.data->ZSet_0.hash
            } else {
                Map::empty()
            };
            &&& data is ZSet
            &&& 0 <= i < req.members@.len() ==> data->ZSet_0.hash.contains_key(member)
                && data->ZSet_0.hash[member] == req.members@[i].1
            &&& !(0 <= i < req.members@.len()) ==> {
                &&& data->ZSet_0.hash.contains_key(member) == before.contains_key(member)
                &&& before.contains_key(member) ==> data->ZSet_0.hash[member] == before[member]
            }
        }),
{
    let members = sorted_set::scored(req.members@);
    let set = if found is Some {
        found->0.data->ZSet_0
    } else {
        SortedSetModel::empty()
    };
    sorted_set::law_last_score_counts(set, req, members, member);
    assert forall|j: int| 0 <= j < members.len() implies (#[trigger] members[j]).0
        == req.members@[j].0@ && members[j].1 == req.members@[j].1 by {}
    let after = set.after(req, members);
    if 0 <= i < members.len() {
        assert(members[i].0 == member);
        assert(after.score_of(member) == Some(members[i].1));
    } else {
        assert(after.score_of(member) == set.score_of(member));
    }
}

/// Under the conditions, as without them, the stored set is the one that was there, or an
/// empty one, with the members of the request scored one after the other, and the reply
/// counts those that are new, or those that got a score if that is asked for.
pub proof fn law_scoring_is_stored_step_by_step(
    req: ZAddReq,
    found: Option<StoredModel>,
    n: int,
)
    requires
        found is Some ==> found->0.data is ZSet,
        n == req.members@.len(),
    ensures
        ({
            let members = sorted_set::scored(req.members@);
            let set = if found is Some {
                found->0.data->ZSet_0
            } else {
                SortedSetModel::empty()
            };
            &&& zset::scored_in(req, found).data == DataModel::ZSet(
                set.after(req, members.take(n)),
            )
            &&& req.ch ==> zset::score_reply(req, found) == Reply::Integer(
                set.changes(req, members, n as nat) as i64,
            )
            &&& !req.ch ==> zset::score_reply(req, found) == Reply::Integer(
                set.additions(req, members, n as nat) as i64,
            )
        }),
{
    let members = sorted_set::scored(req.members@);
    assert(members.take(n) =~= members);
}

/// Unless the changed members are asked for too, the reply is by how many members the
/// stored set has grown; if they are, it is at least that and at most the number of
/// members that the request names.
pub proof fn law_score_reply_is_the_growth(req: ZAddReq, found: Option<StoredModel>)
    requires
        found is Some ==> found->0.data is ZSet && found->0.data->ZSet_0.hash.dom().finite(),
        req.members@.len() <= i64::MAX,
    ensures
        ({
            let after = zset::scored_in(req, found).data->ZSet_0.hash;
            let before = if found is Some {
                found->0.data->ZSet_0.hash
            } else {
                Map::empty()
            };
            let reply = zset::score_reply(req, found);
            &&& reply is Integer
            &&& !req.ch ==> reply->Integer_0 == after.len() - before.len()
            &&& req.ch ==> after.len() - before.len() <= reply->Integer_0 <= req.members@.len()
        }),
{
    let members = sorted_set::scored(req.members@);
    let set = if found is Some {
        found->0.data->ZSet_0
    } else {
        SortedSetModel::empty()
    };
    assert(members.take(members.len() as int) =~= members);
    sorted_set::law_counts(set, req, members, members.len());
}

/// Without conditions every member that a request names is counted, if changed members
/// are asked for.
pub proof fn law_all_changes_are_counted(req: ZAddReq, set: SortedSetModel, n: nat)
    requires
        !req.nx,
        !req.xx,
        !req.gt,
        !req.lt,
        n <= req.members@.len(),
    ensures
        set.changes(req, sorted_set::scored(req.members@), n) == n,
        req.ch && n == req.members@.len() ==> zset::score_count(req, set) == n as i64,
    decreases n,
{
    if n > 0 {
        law_all_changes_are_counted(req, set, (n - 1) as nat);
    }
}

/// Whatever is scored, the version and the expiry of a stored value stay; a new one has
/// the first version and never expires; what is no sorted set is left alone, and the
/// reply says so.
pub proof fn law_scoring_keeps_the_rest(req: ZAddReq, value: StoredModel)
    ensures
        zset::scored_in(req, Some(value)).version == value.version,
        zset::scored_in(req, Some(value)).expires_at == value.expires_at,
        zset::scored_in(req, None).version == 1,
        zset::scored_in(req, None).expires_at == 0,
        !(value.data is ZSet) ==> zset::scored_in(req, Some(value)) == value,
        !(value.data is ZSet) ==> zset::score_reply(req, Some(value)) == Reply::Error(
            "zadd: key is not a zset"@,
        ),
{
}

/// What is stored shows its data, its expiry and its version; data shows its kind and its
/// contents.
pub proof fn law_stored_values_show_their_parts(
    value: MyValue,
    n: i64,
    bytes: Vec<u8>,
    list: VecDeque<Vec<u8>>,
    map: BytesMap<HashValue>,
    set: SortedSet,
    members: BytesMap<()>,
    field: Seq<u8>,
)
    ensures
        value@.data == value.data@,
        value@.expires_at == value.expires_at,
        value@.version == value.version,
        ValueObject::Int(n)@ == DataModel::Int(n),
        ValueObject::String(bytes)@ == DataModel::String(bytes@),
        ValueObject::List(list)@ == DataModel::List(byte_strings::names(list@)),
        ValueObject::ZSet(set)@ == DataModel::ZSet(set@),
        ValueObject::Members(members)@ == DataModel::Members(members@.dom()),
        ValueObject::Hash(map)@ is Hash,
        ValueObject::Hash(map)@->Hash_0.contains_key(field) == map@.contains_key(field),
        map@.contains_key(field) ==> ValueObject::Hash(map)@->Hash_0[field] == map@[field]@,
        HashValue::Str(bytes)@ == FieldModel::Str(bytes@),
        HashValue::Int(n)@ == FieldModel::Int(n),
        value_object::stored(Some(value)) == Some(value@),
        value_object::stored(None) is None,
{
}

/// What is to be done with a key, and what became of it, is what it says.
pub proof fn law_operations_are_what_they_say(
    value: MyValue,
    push: list::LPushReq,
    set: hash::HSetReq,
    version: u64,
    queue: Vec<cas::AtomicRequest>,
    i: int,
)
    ensures
        cas::Op::Put(value)@ == OpModel::Put(value@),
        cas::Op::Nop@ == OpModel::Nop,
        cas::CompResult::Inserted(value).holds() == Some(value),
        cas::CompResult::ReplacedWith(value).holds() == Some(value),
        cas::CompResult::Unchanged(value).holds() == Some(value),
        cas::CompResult::StillNone.holds() is None,
        cas::CompResult::Removed.holds() is None,
        cas::BaseOperation::LPush(push)@ == (cas::OperationModel::LPush {
            key: push.key@,
            elements: byte_strings::names(push.elements@),
        }),
        cas::BaseOperation::HSet(set)@ == (cas::OperationModel::HSet {
            key: set.key@,
            fields: hash::pairs(set.elements@),
        }),
        cas::UpdateType::Plain@ == UpdateModel::Plain,
        cas::UpdateType::CAS(version)@ == UpdateModel::CAS(version),
        cas::UpdateType::Snapshot(queue)@ is Snapshot,
        cas::UpdateType::Snapshot(queue)@->Snapshot_0.len() == queue@.len(),
        0 <= i < queue@.len() ==> cas::UpdateType::Snapshot(queue)@->Snapshot_0[i] == (
        AtomicModel { request: queue@[i].request@, version: queue@[i].version }),
{
}

} // verus!
