//! What running a command and taking it back amount to.

use vstd::prelude::*;
use vstd::seq_lib::lemma_multiset_commutative;
use vstd::seq_lib::to_multiset_build;
use vstd::seq_lib::to_multiset_contains;
use vstd::seq_lib::to_multiset_remove;
use crate::models::connection::TerminalView;
use crate::command::command::after_deleting;
use crate::command::command::delete_step;
use crate::command::command::readded;
use crate::command::command::recorded_deleting;
use crate::command::command::AddConnectionCommand;
use crate::command::command::ConnectionCommand;
use crate::command::command::Command;
use crate::command::command::CommandError;
use crate::command::command::DeleteConnectionCommand;
use crate::command::command::EditConnectionCommand;
use crate::models::connection::ConnectionView;
use crate::models::connection_manager::duplicate_free;
use crate::models::connection_manager::holds;
use crate::models::connection_manager::lemma_holds;
use crate::models::connection_manager::lemma_position_of_uuid;
use crate::models::connection_manager::position_of;
use crate::models::connection_manager::position_of_uuid;
use crate::models::connection_manager::same_connections;
use crate::models::connection_manager::ConnectionManager;

verus! {

/// `wire` is a connection of `list`.
spec fn is_in(wire: ConnectionView, list: Seq<ConnectionView>) -> bool {
    exists|j: int| 0 <= j < list.len() && #[trigger] list[j] == wire
}

/// Every connection of `part` is a connection of `whole`.
spec fn taken_from(part: Seq<ConnectionView>, whole: Seq<ConnectionView>) -> bool {
    forall|i: int| 0 <= i < part.len() ==> is_in(#[trigger] part[i], whole)
}

/// `wire` has the texts of a connection of `list`.
spec fn texts_in(wire: ConnectionView, list: Seq<ConnectionView>) -> bool {
    exists|k: int| 0 <= k < list.len() && (#[trigger] list[k]).fields() == wire.fields()
}

/// Running an add command on a registry that holds no equal connection,
/// taking it back and running it again: each step succeeds, taking back
/// restores the connections as they were, and running again leaves the
/// connections that the first run left, as a set under the equality of
/// connections. More than that: the lists agree place for place, but for the
/// identifier of the added connection.
pub proof fn lemma_add_undo_redo(
    command: AddConnectionCommand,
    run: AddConnectionCommand,
    taken_back: AddConnectionCommand,
    run_again: AddConnectionCommand,
    registry: ConnectionManager,
    after_run: ConnectionManager,
    after_undo: ConnectionManager,
    after_redo: ConnectionManager,
    first: Result<(), CommandError>,
    second: Result<(), CommandError>,
    third: Result<(), CommandError>,
)
    requires
        !holds(registry.wires(), command.source(), command.destination()),
        command.executed(&run, &registry, &after_run, first),
        run.undone(&taken_back, &after_run, &after_undo, second),
        taken_back.redone(&run_again, &after_undo, &after_redo, third),
    ensures
        first is Ok,
        second is Ok,
        third is Ok,
        after_undo.wires() == registry.wires(),
        same_connections(after_redo.wires(), after_run.wires()),
        after_redo.wires().len() == after_run.wires().len(),
        forall|i: int|
            0 <= i < after_run.wires().len() ==> (#[trigger] after_redo.wires()[i]).fields()
                == after_run.wires()[i].fields(),
{
    let before = registry.wires();
    let wire = run.connection()->0;
    let grown = after_run.wires();
    assert(grown == before.push(wire));
    lemma_holds(before, wire.source(), wire.destination());
    lemma_holds(grown, wire.source(), wire.destination());
    assert(grown[before.len() as int].joins(wire.source(), wire.destination()));
    assert forall|i: int| 0 <= i < before.len() implies !(#[trigger] grown[i]).joins(
        wire.source(),
        wire.destination(),
    ) by {
        assert(grown[i] == before[i]);
    }
    assert(position_of(grown, wire.source(), wire.destination()) == before.len());
    assert(grown.remove(before.len() as int) =~= before);
    let again = after_redo.wires();
    assert(again.len() == grown.len());
    assert forall|i: int| 0 <= i < grown.len() implies (#[trigger] again[i]).fields()
        == grown[i].fields() by {
        if i < before.len() {
            assert(again[i] == before[i]);
            assert(grown[i] == before[i]);
        }
    }
    assert forall|i: int| 0 <= i < again.len() implies holds(
        grown,
        (#[trigger] again[i]).source(),
        again[i].destination(),
    ) by {
        lemma_holds(grown, again[i].source(), again[i].destination());
        assert(grown[i].joins(again[i].source(), again[i].destination()));
    }
    assert forall|i: int| 0 <= i < grown.len() implies holds(
        again,
        (#[trigger] grown[i]).source(),
        grown[i].destination(),
    ) by {
        lemma_holds(again, grown[i].source(), grown[i].destination());
        assert(again[i].joins(grown[i].source(), grown[i].destination()));
    }
}

/// Some connection of `list` equals `wire`.
spec fn has_equal(list: Seq<ConnectionView>, wire: ConnectionView) -> bool {
    exists|k: int| 0 <= k < list.len() && (#[trigger] list[k]).same_wire(wire)
}

/// `has_equal` is `holds`.
proof fn lemma_has_equal(list: Seq<ConnectionView>, wire: ConnectionView)
    ensures
        has_equal(list, wire) == holds(list, wire.source(), wire.destination()),
{
    lemma_holds(list, wire.source(), wire.destination());
    if has_equal(list, wire) {
        let k = choose|k: int| 0 <= k < list.len() && (#[trigger] list[k]).same_wire(wire);
        assert(list[k].joins(wire.source(), wire.destination()));
    }
    if holds(list, wire.source(), wire.destination()) {
        let k = position_of(list, wire.source(), wire.destination());
        assert(list[k].same_wire(wire));
    }
}

/// Each connection of `list` has an equal one among those left or among
/// those recorded.
spec fn left_or_recorded(
    list: Seq<ConnectionView>,
    left: Seq<ConnectionView>,
    recorded: Seq<ConnectionView>,
) -> bool {
    forall|j: int|
        0 <= j < list.len() ==> has_equal(left, #[trigger] list[j]) || has_equal(recorded, list[j])
}

/// Deleting takes connections out of the list and records connections of
/// the list, and whatever it takes out equals something it records.
proof fn lemma_deleting(list: Seq<ConnectionView>, uuids: Seq<u128>)
    ensures
        taken_from(after_deleting(list, uuids), list),
        taken_from(recorded_deleting(list, uuids), list),
        left_or_recorded(list, after_deleting(list, uuids), recorded_deleting(list, uuids)),
    decreases uuids.len(),
{
    let left = after_deleting(list, uuids);
    let recorded = recorded_deleting(list, uuids);
    if uuids.len() == 0 {
        assert forall|i: int| 0 <= i < left.len() implies is_in(#[trigger] left[i], list) by {
            assert(list[i] == left[i]);
        }
        assert forall|j: int| 0 <= j < list.len() implies has_equal(left, #[trigger] list[j])
            || has_equal(recorded, list[j]) by {
            assert(left[j].same_wire(list[j]));
        }
    } else {
        lemma_deleting(list, uuids.drop_last());
        let before = after_deleting(list, uuids.drop_last());
        let earlier = recorded_deleting(list, uuids.drop_last());
        let found = position_of_uuid(before, uuids.last());
        lemma_position_of_uuid(before, uuids.last());
        if found < before.len() {
            let wire = before[found];
            let at = found;
            assert(left == before.remove(at));
            assert(recorded == earlier.push(wire));
            assert forall|i: int| 0 <= i < left.len() implies is_in(#[trigger] left[i], list) by {
                let source = if i < at {
                    i
                } else {
                    i + 1
                };
                assert(left[i] == before[source]);
                assert(is_in(before[source], list));
            }
            assert forall|i: int| 0 <= i < recorded.len() implies is_in(
                #[trigger] recorded[i],
                list,
            ) by {
                if i < earlier.len() {
                    assert(recorded[i] == earlier[i]);
                    assert(is_in(earlier[i], list));
                } else {
                    assert(is_in(before[found], list));
                }
            }
            assert forall|j: int| 0 <= j < list.len() implies has_equal(left, #[trigger] list[j])
                || has_equal(recorded, list[j]) by {
                let wanted = list[j];
                if has_equal(earlier, wanted) {
                    let k = choose|k: int|
                        0 <= k < earlier.len() && (#[trigger] earlier[k]).same_wire(wanted);
                    assert(recorded[k].same_wire(wanted));
                } else {
                    let k = choose|k: int|
                        0 <= k < before.len() && (#[trigger] before[k]).same_wire(wanted);
                    if k < at {
                        assert(left[k].same_wire(wanted));
                    } else if k > at {
                        assert(left[k - 1].same_wire(wanted));
                    } else {
                        assert(recorded[earlier.len() as int].same_wire(wanted));
                    }
                }
            }
        } else {
            assert(left == before);
            assert(recorded == earlier);
        }
    }
}

/// Each of the later connections of `list` has the texts of a recorded one.
spec fn later_are_recorded(list: Seq<ConnectionView>, from: int, recorded: Seq<ConnectionView>) -> bool {
    forall|i: int| from <= i < list.len() ==> texts_in(#[trigger] list[i], recorded)
}

/// Each recorded connection has an equal one in `list`.
spec fn all_have_equal(list: Seq<ConnectionView>, recorded: Seq<ConnectionView>) -> bool {
    forall|k: int| 0 <= k < recorded.len() ==> has_equal(list, #[trigger] recorded[k])
}

/// Adding again leaves what was there in its place, leaves every recorded
/// connection with an equal one in the list, and adds nothing but
/// connections with the texts of recorded ones.
proof fn lemma_readded(list: Seq<ConnectionView>, recorded: Seq<ConnectionView>, ids: Seq<u128>)
    requires
        ids.len() == recorded.len(),
    ensures
        list.len() <= readded(list, recorded, ids).len() <= list.len() + recorded.len(),
        readded(list, recorded, ids).take(list.len() as int) == list,
        all_have_equal(readded(list, recorded, ids), recorded),
        later_are_recorded(readded(list, recorded, ids), list.len() as int, recorded),
    decreases recorded.len(),
{
    let result = readded(list, recorded, ids);
    if recorded.len() == 0 {
        assert(result.take(list.len() as int) =~= list);
    } else {
        let shorter = recorded.drop_last();
        lemma_readded(list, shorter, ids.drop_last());
        let earlier = readded(list, shorter, ids.drop_last());
        let wire = recorded.last();
        lemma_has_equal(earlier, wire);
        assert(earlier.take(list.len() as int) == list);
        assert(result.take(list.len() as int) =~= earlier.take(list.len() as int));
        assert forall|k: int| 0 <= k < recorded.len() implies has_equal(
            result,
            #[trigger] recorded[k],
        ) by {
            if k < shorter.len() {
                assert(recorded[k] == shorter[k]);
                let i = choose|i: int|
                    0 <= i < earlier.len() && (#[trigger] earlier[i]).same_wire(shorter[k]);
                assert(result[i].same_wire(recorded[k]));
            } else if holds(earlier, wire.source(), wire.destination()) {
                let i = choose|i: int|
                    0 <= i < earlier.len() && (#[trigger] earlier[i]).same_wire(wire);
                assert(result[i].same_wire(recorded[k]));
            } else {
                assert(result[earlier.len() as int].same_wire(recorded[k]));
            }
        }
        assert forall|i: int| list.len() <= i < result.len() implies texts_in(
            #[trigger] result[i],
            recorded,
        ) by {
            if i < earlier.len() {
                assert(result[i] == earlier[i]);
                assert(texts_in(earlier[i], shorter));
                let k = choose|k: int|
                    0 <= k < shorter.len() && (#[trigger] shorter[k]).fields()
                        == earlier[i].fields();
                assert(recorded[k].fields() == result[i].fields());
            } else {
                assert(recorded[recorded.len() - 1].fields() == result[i].fields());
            }
        }
    }
}

/// Running a delete command and taking it back:
/// the registry then holds the connections that it held before the run, as
/// a set under the equality of connections. The connections that were
/// deleted are back with their texts; their identifiers are new.
pub proof fn lemma_delete_undo(
    command: DeleteConnectionCommand,
    run: DeleteConnectionCommand,
    taken_back: DeleteConnectionCommand,
    registry: ConnectionManager,
    after_run: ConnectionManager,
    after_undo: ConnectionManager,
    first: Result<(), CommandError>,
    second: Result<(), CommandError>,
)
    requires
        command.executed(&run, &registry, &after_run, first),
        run.undone(&taken_back, &after_run, &after_undo, second),
    ensures
        first is Ok,
        same_connections(after_undo.wires(), registry.wires()),
        forall|i: int|
            0 <= i < after_undo.wires().len() ==> exists|j: int|
                0 <= j < registry.wires().len() && (#[trigger] registry.wires()[j]).fields() == (
                #[trigger] after_undo.wires()[i]).fields(),
{
    let list = registry.wires();
    let left = after_run.wires();
    let recorded = recorded_deleting(list, command.targets());
    assert(run.deleted() == recorded);
    let ids = choose|ids: Seq<u128>|
        ids.len() == run.deleted().len() && after_undo.wires() == #[trigger] readded(
            left,
            run.deleted(),
            ids,
        );
    let back = after_undo.wires();
    lemma_deleting(list, command.targets());
    lemma_readded(left, recorded, ids);
    assert forall|j: int| 0 <= j < list.len() implies holds(
        back,
        (#[trigger] list[j]).source(),
        list[j].destination(),
    ) by {
        let wanted = list[j];
        lemma_has_equal(back, wanted);
        if has_equal(left, wanted) {
            let k = choose|k: int| 0 <= k < left.len() && (#[trigger] left[k]).same_wire(wanted);
            assert(back.take(left.len() as int)[k] == back[k]);
            assert(back[k].same_wire(wanted));
        } else {
            let k = choose|k: int|
                0 <= k < recorded.len() && (#[trigger] recorded[k]).same_wire(wanted);
            assert(has_equal(back, recorded[k]));
            let i = choose|i: int|
                0 <= i < back.len() && (#[trigger] back[i]).same_wire(recorded[k]);
            assert(back[i].same_wire(wanted));
        }
    }
    assert forall|i: int| 0 <= i < back.len() implies holds(
        list,
        (#[trigger] back[i]).source(),
        back[i].destination(),
    ) && exists|j: int|
        0 <= j < list.len() && (#[trigger] list[j]).fields() == back[i].fields() by {
        let wanted = back[i];
        lemma_has_equal(list, wanted);
        if i < left.len() {
            assert(back.take(left.len() as int)[i] == back[i]);
            assert(is_in(left[i], list));
            let j = choose|j: int| 0 <= j < list.len() && #[trigger] list[j] == left[i];
            assert(list[j].same_wire(wanted));
            assert(list[j].fields() == back[i].fields());
        } else {
            assert(texts_in(back[i], recorded));
            let k = choose|k: int|
                0 <= k < recorded.len() && (#[trigger] recorded[k]).fields() == back[i].fields();
            assert(is_in(recorded[k], list));
            let j = choose|j: int| 0 <= j < list.len() && #[trigger] list[j] == recorded[k];
            assert(list[j].same_wire(wanted));
            assert(list[j].fields() == back[i].fields());
        }
    }
}

/// Where no two connections of the list are equal, those that deleting
/// leaves together with those that it records are as many as the list held,
/// and still without equal connections.
proof fn lemma_deleting_duplicate_free(list: Seq<ConnectionView>, uuids: Seq<u128>)
    requires
        duplicate_free(list),
    ensures
        duplicate_free(after_deleting(list, uuids) + recorded_deleting(list, uuids)),
        after_deleting(list, uuids).len() + recorded_deleting(list, uuids).len() == list.len(),
    decreases uuids.len(),
{
    let left = after_deleting(list, uuids);
    let recorded = recorded_deleting(list, uuids);
    if uuids.len() == 0 {
        assert(left + recorded =~= list);
    } else {
        lemma_deleting_duplicate_free(list, uuids.drop_last());
        let before = after_deleting(list, uuids.drop_last());
        let earlier = recorded_deleting(list, uuids.drop_last());
        let found = position_of_uuid(before, uuids.last());
        lemma_position_of_uuid(before, uuids.last());
        if found < before.len() {
            let at = found;
            let whole = before + earlier;
            let moved = left + recorded;
            assert forall|i: int, j: int| 0 <= i < j < moved.len() implies !(
            #[trigger] moved[i]).same_wire(#[trigger] moved[j]) by {
                let from = if i < at {
                    i
                } else if i < moved.len() - 1 {
                    i + 1
                } else {
                    at
                };
                let to = if j < at {
                    j
                } else if j < moved.len() - 1 {
                    j + 1
                } else {
                    at
                };
                assert(moved[i] == whole[from]);
                assert(moved[j] == whole[to]);
                if from < to {
                    assert(!whole[from].same_wire(whole[to]));
                } else {
                    assert(!whole[to].same_wire(whole[from]));
                }
            }
        }
    }
}

/// Where the list and the recorded connections together are without equal
/// connections, every recorded connection is added again, each behind the
/// others and with its texts.
proof fn lemma_readded_all(list: Seq<ConnectionView>, recorded: Seq<ConnectionView>, ids: Seq<u128>)
    requires
        ids.len() == recorded.len(),
        duplicate_free(list + recorded),
    ensures
        readded(list, recorded, ids).len() == list.len() + recorded.len(),
        forall|i: int|
            0 <= i < list.len() + recorded.len() ==> (#[trigger] readded(
                list,
                recorded,
                ids,
            )[i]).fields() == (list + recorded)[i].fields(),
        duplicate_free(readded(list, recorded, ids)),
    decreases recorded.len(),
{
    let result = readded(list, recorded, ids);
    let whole = list + recorded;
    if recorded.len() == 0 {
        assert(whole =~= list);
    } else {
        let shorter = recorded.drop_last();
        let part = list + shorter;
        assert forall|i: int, j: int| 0 <= i < j < part.len() implies !(#[trigger] part[i]).same_wire(
            #[trigger] part[j],
        ) by {
            assert(part[i] == whole[i]);
            assert(part[j] == whole[j]);
        }
        lemma_readded_all(list, shorter, ids.drop_last());
        let earlier = readded(list, shorter, ids.drop_last());
        let wire = recorded.last();
        lemma_holds(earlier, wire.source(), wire.destination());
        assert(whole[whole.len() - 1] == wire);
        assert forall|i: int| 0 <= i < earlier.len() implies !(#[trigger] earlier[i]).joins(
            wire.source(),
            wire.destination(),
        ) by {
            assert(earlier[i].fields() == part[i].fields());
            assert(part[i] == whole[i]);
            assert(!whole[i].same_wire(whole[whole.len() - 1]));
        }
        assert(!holds(earlier, wire.source(), wire.destination()));
        assert forall|i: int| 0 <= i < whole.len() implies (#[trigger] result[i]).fields()
            == whole[i].fields() by {
            if i < earlier.len() {
                assert(result[i] == earlier[i]);
                assert(part[i] == whole[i]);
            }
        }
        assert forall|i: int, j: int| 0 <= i < j < result.len() implies !(
        #[trigger] result[i]).same_wire(#[trigger] result[j]) by {
            assert(result[i].fields() == whole[i].fields());
            assert(result[j].fields() == whole[j].fields());
            assert(!whole[i].same_wire(whole[j]));
        }
    }
}

/// The texts of the connections of a list, in its order.
pub open spec fn texts(list: Seq<ConnectionView>) -> Seq<(TerminalView, TerminalView)> {
    list.map_values(|wire: ConnectionView| wire.fields())
}

/// The texts of a list are, counted with their number, the texts of what
/// deleting leaves together with the texts of what it records.
proof fn lemma_deleting_texts(list: Seq<ConnectionView>, uuids: Seq<u128>)
    ensures
        texts(list).to_multiset() == texts(after_deleting(list, uuids)).to_multiset().add(
            texts(recorded_deleting(list, uuids)).to_multiset(),
        ),
    decreases uuids.len(),
{
    broadcast use vstd::multiset::group_multiset_axioms;

    let left = after_deleting(list, uuids);
    let recorded = recorded_deleting(list, uuids);
    if uuids.len() == 0 {
        assert(texts(recorded) =~= Seq::<(TerminalView, TerminalView)>::empty());
        assert(texts(list) + texts(recorded) =~= texts(list));
        lemma_multiset_commutative(texts(list), texts(recorded));
    } else {
        lemma_deleting_texts(list, uuids.drop_last());
        let before = after_deleting(list, uuids.drop_last());
        let earlier = recorded_deleting(list, uuids.drop_last());
        let found = position_of_uuid(before, uuids.last());
        lemma_position_of_uuid(before, uuids.last());
        if found < before.len() {
            let taken = before[found].fields();
            assert(texts(left) =~= texts(before).remove(found));
            to_multiset_remove(texts(before), found);
            assert(texts(recorded) =~= texts(earlier).push(taken));
            to_multiset_build(texts(earlier), taken);
            assert(texts(before)[found] == taken);
            to_multiset_contains(texts(before), taken);
            assert(texts(before).to_multiset() =~= texts(left).to_multiset().insert(taken));
            assert(texts(list).to_multiset() =~= texts(left).to_multiset().add(
                texts(recorded).to_multiset(),
            ));
        }
    }
}

/// Taking back a delete command, after it was run, succeeds: every
/// deleted connection is added again, with its texts, behind those that were
/// left. The registry holds as many connections as before the run, and the
/// texts of its connections, counted with their number, are those that it
/// held before the run. The identifiers of the connections that came back
/// are new.
pub proof fn lemma_delete_undo_restores(
    command: DeleteConnectionCommand,
    run: DeleteConnectionCommand,
    taken_back: DeleteConnectionCommand,
    registry: ConnectionManager,
    after_run: ConnectionManager,
    after_undo: ConnectionManager,
    first: Result<(), CommandError>,
    second: Result<(), CommandError>,
)
    requires
        command.executed(&run, &registry, &after_run, first),
        run.undone(&taken_back, &after_run, &after_undo, second),
    ensures
        first is Ok,
        second is Ok,
        after_undo.wires().len() == registry.wires().len(),
        after_undo.wires().take(after_run.wires().len() as int) == after_run.wires(),
        forall|k: int|
            0 <= k < run.deleted().len() ==> (#[trigger] after_undo.wires()[after_run.wires().len()
                + k]).fields() == run.deleted()[k].fields(),
        texts(after_undo.wires()).to_multiset() == texts(registry.wires()).to_multiset(),
{
    let list = registry.wires();
    let left = after_run.wires();
    let recorded = recorded_deleting(list, command.targets());
    assert(run.deleted() == recorded);
    let ids = choose|ids: Seq<u128>|
        ids.len() == run.deleted().len() && after_undo.wires() == #[trigger] readded(
            left,
            run.deleted(),
            ids,
        );
    lemma_deleting_duplicate_free(list, command.targets());
    lemma_readded_all(left, recorded, ids);
    lemma_readded(left, recorded, ids);
    lemma_deleting_texts(list, command.targets());
    let back = after_undo.wires();
    assert(texts(back) =~= texts(left) + texts(recorded)) by {
        assert forall|i: int| 0 <= i < back.len() implies texts(back)[i] == (texts(left) + texts(
            recorded,
        ))[i] by {
            if i < left.len() {
                assert(back.take(left.len() as int)[i] == back[i]);
            } else {
                assert(back[left.len() + (i - left.len())].fields() == recorded[i
                    - left.len()].fields());
            }
        }
    }
    lemma_multiset_commutative(texts(left), texts(recorded));
}

/// Whatever a command does, run, taken back or run again, and however it
/// ends: the registry holds no two equal connections before it and none
/// after it.
pub proof fn lemma_commands_keep_registry_valid(
    command: ConnectionCommand,
    after: ConnectionCommand,
    registry: ConnectionManager,
    registry_after: ConnectionManager,
    result: Result<(), CommandError>,
)
    requires
        command.executed(&after, &registry, &registry_after, result) || command.undone(
            &after,
            &registry,
            &registry_after,
            result,
        ) || command.redone(&after, &registry, &registry_after, result),
    ensures
        duplicate_free(registry.wires()),
        duplicate_free(registry_after.wires()),
{
}

/// Running an edit command and taking it back, where the identifier that
/// was drawn for the replacement is that of no other stored connection: the
/// registry then holds the connections that it held before the run, with
/// their identifiers; the one that was edited stands behind the others.
pub proof fn lemma_edit_undo(
    command: EditConnectionCommand,
    run: EditConnectionCommand,
    taken_back: EditConnectionCommand,
    registry: ConnectionManager,
    after_run: ConnectionManager,
    after_undo: ConnectionManager,
    first: Result<(), CommandError>,
    second: Result<(), CommandError>,
)
    requires
        command.executed(&run, &registry, &after_run, first),
        run.undone(&taken_back, &after_run, &after_undo, second),
        first is Ok,
        forall|i: int|
            0 <= i < registry.wires().len() ==> Some((#[trigger] registry.wires()[i]).uuid)
                != run.replacement(),
    ensures
        second is Ok,
        position_of_uuid(registry.wires(), command.target()) < registry.wires().len(),
        after_undo.wires() == registry.wires().remove(
            position_of_uuid(registry.wires(), command.target()),
        ).push(registry.wires()[position_of_uuid(registry.wires(), command.target())]),
{
    let list = registry.wires();
    let at = position_of_uuid(list, command.target());
    lemma_position_of_uuid(list, command.target());
    let edited = after_run.wires();
    let others = list.remove(at);
    let made = edited.last();
    assert(edited =~= others.push(made));
    lemma_position_of_uuid(edited, made.uuid);
    let found = position_of_uuid(edited, made.uuid);
    if found < others.len() {
        let before = if found < at {
            found
        } else {
            found + 1
        };
        assert(edited[found] == list[before]);
    }
    assert(found == others.len());
    assert(edited.remove(found) =~= others);
    let old = list[at];
    lemma_holds(others, old.source(), old.destination());
    assert forall|i: int| 0 <= i < others.len() implies !(#[trigger] others[i]).joins(
        old.source(),
        old.destination(),
    ) by {
        let from = if i < at {
            i
        } else {
            i + 1
        };
        assert(others[i] == list[from]);
        if from < at {
            assert(!list[from].same_wire(list[at]));
        } else {
            assert(!list[at].same_wire(list[from]));
        }
    }
}

/// No two connections of the list have the same identifier.
pub open spec fn distinct_ids(list: Seq<ConnectionView>) -> bool {
    forall|i: int, j: int| 0 <= i < j < list.len() ==> (#[trigger] list[i]).uuid != (
    #[trigger] list[j]).uuid
}

/// What is kept of a list of connections without equal identifiers keeps
/// them without equal identifiers.
proof fn lemma_filter_keeps_distinct_ids(list: Seq<ConnectionView>, kept: spec_fn(ConnectionView) -> bool)
    requires
        distinct_ids(list),
    ensures
        distinct_ids(list.filter(kept)),
    decreases list.len(),
{
    reveal(Seq::filter);
    if list.len() > 0 {
        let rest = list.drop_last();
        let last = list.last();
        assert forall|i: int, j: int| 0 <= i < j < rest.len() implies (#[trigger] rest[i]).uuid != (
        #[trigger] rest[j]).uuid by {
            assert(list[i].uuid != list[j].uuid);
        }
        lemma_filter_keeps_distinct_ids(rest, kept);
        let shorter = rest.filter(kept);
        if kept(last) {
            assert forall|i: int| 0 <= i < shorter.len() implies (#[trigger] shorter[i]).uuid
                != last.uuid by {
                assert(shorter.contains(shorter[i]));
                rest.lemma_filter_contains_rev(kept, shorter[i]);
                let k = choose|k: int| 0 <= k < rest.len() && rest[k] == shorter[i];
                assert(list[k].uuid != list[list.len() - 1].uuid);
            }
        }
    }
}

/// Keeping by one test and then by another is keeping by both.
proof fn lemma_filter_twice(
    list: Seq<ConnectionView>,
    first: spec_fn(ConnectionView) -> bool,
    second: spec_fn(ConnectionView) -> bool,
    both: spec_fn(ConnectionView) -> bool,
)
    requires
        forall|wire: ConnectionView| #[trigger] both(wire) == (first(wire) && second(wire)),
    ensures
        list.filter(first).filter(second) == list.filter(both),
    decreases list.len(),
{
    reveal(Seq::filter);
    if list.len() > 0 {
        let rest = list.drop_last();
        let last = list.last();
        lemma_filter_twice(rest, first, second, both);
        assert(both(last) == (first(last) && second(last)));
        if first(last) {
            rest.filter(first).lemma_filter_push(last, second);
        }
    }
}

/// In a list without equal identifiers, to remove the first connection with
/// an identifier is to keep the connections that do not have it.
proof fn lemma_remove_is_filter(list: Seq<ConnectionView>, uuid: u128)
    requires
        distinct_ids(list),
    ensures
        delete_step(list, uuid) == list.filter(|wire: ConnectionView| wire.uuid != uuid),
    decreases list.len(),
{
    reveal(Seq::filter);
    let kept = |wire: ConnectionView| wire.uuid != uuid;
    lemma_position_of_uuid(list, uuid);
    if list.len() > 0 {
        let rest = list.drop_last();
        let last = list.last();
        assert forall|i: int, j: int| 0 <= i < j < rest.len() implies (#[trigger] rest[i]).uuid != (
        #[trigger] rest[j]).uuid by {
            assert(list[i].uuid != list[j].uuid);
        }
        lemma_remove_is_filter(rest, uuid);
        lemma_position_of_uuid(rest, uuid);
        let at = position_of_uuid(list, uuid);
        let before = position_of_uuid(rest, uuid);
        if before < rest.len() {
            assert(list[before].uuid == uuid);
            assert forall|i: int| 0 <= i < before implies (#[trigger] list[i]).uuid != uuid by {
                assert(rest[i].uuid != uuid);
            }
            assert(at == before);
            assert(list[before].uuid != list[list.len() - 1].uuid);
            assert(list.remove(at) =~= rest.remove(before).push(last));
        } else {
            assert forall|i: int| 0 <= i < rest.len() implies (#[trigger] list[i]).uuid != uuid by {
                assert(rest[i].uuid != uuid);
            }
            if last.uuid == uuid {
                assert(at == rest.len());
                assert(list.remove(at) =~= rest);
            } else {
                assert(at == list.len());
                assert(list =~= rest.push(last));
            }
        }
    }
}

/// Where no two connections have the same identifier, deleting by
/// identifiers leaves the connections whose identifier is not among them, in
/// their order.
pub proof fn lemma_deleting_leaves_the_others(list: Seq<ConnectionView>, uuids: Seq<u128>)
    requires
        distinct_ids(list),
    ensures
        after_deleting(list, uuids) == list.filter(
            |wire: ConnectionView| !uuids.contains(wire.uuid),
        ),
    decreases uuids.len(),
{
    let kept = |wire: ConnectionView| !uuids.contains(wire.uuid);
    if uuids.len() == 0 {
        lemma_keeps_all(list, kept);
    } else {
        let earlier = uuids.drop_last();
        let last = uuids.last();
        let kept_earlier = |wire: ConnectionView| !earlier.contains(wire.uuid);
        let not_last = |wire: ConnectionView| wire.uuid != last;
        lemma_deleting_leaves_the_others(list, earlier);
        lemma_filter_keeps_distinct_ids(list, kept_earlier);
        lemma_remove_is_filter(list.filter(kept_earlier), last);
        assert forall|wire: ConnectionView| #[trigger] kept(wire) == (kept_earlier(wire) && not_last(
            wire,
        )) by {
            if earlier.contains(wire.uuid) {
                let k = choose|k: int| 0 <= k < earlier.len() && earlier[k] == wire.uuid;
                assert(uuids[k] == wire.uuid);
            }
            if wire.uuid == last {
                assert(uuids[uuids.len() - 1] == wire.uuid);
            }
            if uuids.contains(wire.uuid) {
                let k = choose|k: int| 0 <= k < uuids.len() && uuids[k] == wire.uuid;
                if k < earlier.len() {
                    assert(earlier[k] == wire.uuid);
                }
            }
        }
        lemma_filter_twice(list, kept_earlier, not_last, kept);
    }
}

/// Keeping by a test that every connection of the list meets keeps the list.
proof fn lemma_keeps_all(list: Seq<ConnectionView>, kept: spec_fn(ConnectionView) -> bool)
    requires
        forall|i: int| 0 <= i < list.len() ==> kept(#[trigger] list[i]),
    ensures
        list.filter(kept) == list,
    decreases list.len(),
{
    reveal(Seq::filter);
    if list.len() > 0 {
        let rest = list.drop_last();
        assert forall|i: int| 0 <= i < rest.len() implies kept(#[trigger] rest[i]) by {
            assert(kept(list[i]));
        }
        lemma_keeps_all(rest, kept);
        assert(rest.push(list.last()) =~= list);
    }
}

} // verus!
