//! The live objects of a scene and the structural part of a frame: spawning,
//! destroying and notifying objects by identifier.

use vstd::prelude::*;
use crate::entity::Entity;
use crate::events::SceneEvent;
use crate::ids::{bump, get_uniq_id, lemma_nth_id, nth_id, IdAllocator};
use crate::layers::ColLayer;
use crate::solver::{contacts, detect_collisions, judged};

verus! {

/// Some object carries the identifier.
pub open spec fn has_id<B>(objects: Seq<Entity<B>>, id: u32) -> bool {
    exists|i: int| 0 <= i < objects.len() && (#[trigger] objects[i]).id() == id
}

/// `i` is the position of the first object that carries the identifier.
pub open spec fn is_first_with_id<B>(objects: Seq<Entity<B>>, id: u32, i: int) -> bool {
    &&& 0 <= i < objects.len()
    &&& objects[i].id() == id
    &&& forall|j: int| 0 <= j < i ==> (#[trigger] objects[j]).id() != id
}

/// The position of the first object that carries the identifier, where
/// there is one.
pub open spec fn first_with_id<B>(objects: Seq<Entity<B>>, id: u32) -> int {
    choose|i: int| is_first_with_id(objects, id, i)
}

/// The objects without the first one that carries the identifier; the
/// others keep their order.
pub open spec fn without<B>(objects: Seq<Entity<B>>, id: u32) -> Seq<Entity<B>> {
    if has_id(objects, id) {
        objects.remove(first_with_id(objects, id))
    } else {
        objects
    }
}

/// The objects after the first one that carries the identifier has been
/// told of a contact with `layer`. Without such an object nothing changes.
pub open spec fn notified<B>(objects: Seq<Entity<B>>, id: u32, layer: ColLayer) -> Seq<Entity<B>> {
    if has_id(objects, id) {
        let i = first_with_id(objects, id);
        objects.update(i, objects[i].hit_by(layer))
    } else {
        objects
    }
}

/// The objects and the next free identifier after one event has been applied:
/// a spawn request appends its object under the next identifier, a destroy
/// request removes the first object with its identifier, and every other
/// event leaves both as they are.
pub open spec fn applied<B>(objects: Seq<Entity<B>>, next: u32, event: SceneEvent<B>) -> (
    Seq<Entity<B>>,
    u32,
) {
    match event {
        SceneEvent::SpawnEntity(e) => (objects.push(e.with_id(next)), bump(next)),
        SceneEvent::DestroyEntity(id) => (without(objects, id), next),
        _ => (objects, next),
    }
}

/// The objects and the next free identifier after the events have been
/// applied one after the other, in their order.
pub open spec fn applied_all<B>(objects: Seq<Entity<B>>, next: u32, events: Seq<SceneEvent<B>>) -> (
    Seq<Entity<B>>,
    u32,
)
    decreases events.len(),
{
    if events.len() == 0 {
        (objects, next)
    } else {
        let before = applied_all(objects, next, events.drop_last());
        applied(before.0, before.1, events.last())
    }
}

/// What is left of an event once it has been applied: a spawn request has
/// given its object away, every other event is kept.
pub open spec fn settled<B>(event: SceneEvent<B>) -> SceneEvent<B> {
    match event {
        SceneEvent::SpawnEntity(_) => SceneEvent::Nothing,
        other => other,
    }
}

/// The objects after one collision notice has been delivered: each of the
/// two objects that is still there learns the layer of the other. Events of
/// other kinds deliver nothing.
pub open spec fn delivered<B>(objects: Seq<Entity<B>>, event: SceneEvent<B>) -> Seq<Entity<B>> {
    match event {
        SceneEvent::Collision { a, b, layer_a, layer_b } => notified(
            notified(objects, a, layer_b),
            b,
            layer_a,
        ),
        _ => objects,
    }
}

/// The objects after the collision notices among the events have been
/// delivered one after the other, in their order.
pub open spec fn delivered_all<B>(objects: Seq<Entity<B>>, events: Seq<SceneEvent<B>>) -> Seq<
    Entity<B>,
>
    decreases events.len(),
{
    if events.len() == 0 {
        objects
    } else {
        delivered(delivered_all(objects, events.drop_last()), events.last())
    }
}

/// `outcomes` holds, object by object, what `step` made of the object: the
/// object after its update and the events it emitted.
pub open spec fn stepped<B, F: Fn(Entity<B>) -> (Entity<B>, Vec<SceneEvent<B>>)>(
    objects: Seq<Entity<B>>,
    step: F,
    outcomes: Seq<(Entity<B>, Vec<SceneEvent<B>>)>,
) -> bool {
    &&& outcomes.len() == objects.len()
    &&& forall|i: int|
        0 <= i < objects.len() ==> step.ensures((objects[i],), #[trigger] outcomes[i])
}

/// The objects after their updates, in their order.
pub open spec fn survivors<B>(outcomes: Seq<(Entity<B>, Vec<SceneEvent<B>>)>) -> Seq<Entity<B>> {
    outcomes.map_values(|o: (Entity<B>, Vec<SceneEvent<B>>)| o.0)
}

/// The events of all updates in one batch: those of the first object first,
/// each object's events in the order in which it emitted them.
pub open spec fn gathered<B>(outcomes: Seq<(Entity<B>, Vec<SceneEvent<B>>)>) -> Seq<SceneEvent<B>>
    decreases outcomes.len(),
{
    if outcomes.len() == 0 {
        seq![]
    } else {
        gathered(outcomes.drop_last()) + outcomes.last().1@
    }
}

/// One frame took `before` and `next` to `after` and `next_after` and left
/// `batch`, where `outcomes` holds what the updates made of the objects and
/// `touching` the pairs that the geometric test found touching.
pub open spec fn frame<B, F: Fn(Entity<B>) -> (Entity<B>, Vec<SceneEvent<B>>), H: Fn(&B, &B) -> bool>(
    before: Seq<Entity<B>>,
    next: u32,
    step: F,
    hit: H,
    outcomes: Seq<(Entity<B>, Vec<SceneEvent<B>>)>,
    touching: Set<(int, int)>,
    after: Seq<Entity<B>>,
    next_after: u32,
    batch: Seq<SceneEvent<B>>,
) -> bool {
    let commands = gathered(outcomes);
    let present = applied_all(survivors(outcomes), next, commands);
    &&& stepped(before, step, outcomes)
    &&& judged(present.0, hit, touching)
    &&& next_after == present.1
    &&& after == delivered_all(present.0, contacts(present.0, touching))
    &&& batch == commands.map_values(|e: SceneEvent<B>| settled(e))
    &&& spawned_fresh(survivors(outcomes), next, commands, after, next_after)
}

/// The first object with an identifier is the only position that
/// [`is_first_with_id`] accepts.
pub proof fn lemma_first_with_id<B>(objects: Seq<Entity<B>>, id: u32, i: int)
    requires
        is_first_with_id(objects, id, i),
    ensures
        has_id(objects, id),
        first_with_id(objects, id) == i,
{
    let c = first_with_id(objects, id);
    assert(is_first_with_id(objects, id, c));
    if c < i {
        assert(objects[c].id() != id);
    }
    if i < c {
        assert(objects[i].id() != id);
    }
}

proof fn lemma_least_with_id<B>(objects: Seq<Entity<B>>, id: u32, i: int) -> (k: int)
    requires
        0 <= i < objects.len(),
        objects[i].id() == id,
    ensures
        is_first_with_id(objects, id, k),
    decreases i,
{
    if exists|j: int| 0 <= j < i && (#[trigger] objects[j]).id() == id {
        let j = choose|j: int| 0 <= j < i && (#[trigger] objects[j]).id() == id;
        lemma_least_with_id(objects, id, j)
    } else {
        i
    }
}

/// Where some object carries the identifier, one of them comes first.
pub proof fn lemma_has_first<B>(objects: Seq<Entity<B>>, id: u32)
    requires
        has_id(objects, id),
    ensures
        is_first_with_id(objects, id, first_with_id(objects, id)),
{
    let i = choose|i: int| 0 <= i < objects.len() && (#[trigger] objects[i]).id() == id;
    let k = lemma_least_with_id(objects, id, i);
}

/// A contact leaves every object in its place and under its identifier.
pub proof fn lemma_notified_keeps_ids<B>(objects: Seq<Entity<B>>, id: u32, layer: ColLayer)
    ensures
        notified(objects, id, layer).len() == objects.len(),
        forall|i: int|
            0 <= i < objects.len() ==> (#[trigger] notified(objects, id, layer)[i]).id()
                == objects[i].id(),
        forall|other: u32| has_id(notified(objects, id, layer), other) == has_id(objects, other),
{
    let told = notified(objects, id, layer);
    if has_id(objects, id) {
        lemma_has_first(objects, id);
    }
    assert forall|i: int| 0 <= i < objects.len() implies (#[trigger] told[i]).id()
        == objects[i].id() by {}
    assert forall|other: u32| has_id(told, other) == has_id(objects, other) by {
        if has_id(told, other) {
            let i = choose|i: int| 0 <= i < told.len() && (#[trigger] told[i]).id() == other;
            assert(objects[i].id() == other);
        }
        if has_id(objects, other) {
            let i = choose|i: int| 0 <= i < objects.len() && (#[trigger] objects[i]).id() == other;
            assert(told[i].id() == other);
        }
    }
}

/// Objects that changed only in what their flags say are found under the
/// same identifiers at the same places.
proof fn lemma_same_ids_same_first<B>(before: Seq<Entity<B>>, after: Seq<Entity<B>>, id: u32)
    requires
        before.len() == after.len(),
        forall|i: int| 0 <= i < before.len() ==> (#[trigger] after[i]).id() == before[i].id(),
    ensures
        has_id(after, id) == has_id(before, id),
        has_id(before, id) ==> first_with_id(after, id) == first_with_id(before, id),
{
    if has_id(before, id) {
        lemma_has_first(before, id);
        let first = first_with_id(before, id);
        assert(after[first].id() == id);
        assert forall|j: int| 0 <= j < first implies (#[trigger] after[j]).id() != id by {
            assert(before[j].id() != id);
        }
        lemma_first_with_id(after, id, first);
    }
    if has_id(after, id) {
        let i = choose|i: int| 0 <= i < after.len() && (#[trigger] after[i]).id() == id;
        assert(before[i].id() == id);
    }
}

/// Telling an object of the same contact a second time changes nothing.
pub proof fn lemma_hit_twice<B>(object: Entity<B>, first: ColLayer, second: ColLayer)
    ensures
        object.hit_by(first).hit_by(first) == object.hit_by(first),
        object.hit_by(first).hit_by(second).hit_by(first) == object.hit_by(first).hit_by(second),
        object.hit_by(first).hit_by(second).hit_by(second) == object.hit_by(first).hit_by(second),
        object.hit_by(first).id() == object.id(),
{
}

/// Delivering a collision notice a second time changes nothing: dispatch is
/// idempotent for each pair.
pub proof fn lemma_delivery_idempotent<B>(objects: Seq<Entity<B>>, event: SceneEvent<B>)
    ensures
        delivered(delivered(objects, event), event) == delivered(objects, event),
{
    match event {
        SceneEvent::Collision { a, b, layer_a, layer_b } => {
            let o1 = notified(objects, a, layer_b);
            let o2 = notified(o1, b, layer_a);
            let o3 = notified(o2, a, layer_b);
            let o4 = notified(o3, b, layer_a);
            lemma_notified_keeps_ids(objects, a, layer_b);
            lemma_notified_keeps_ids(o1, b, layer_a);
            lemma_notified_keeps_ids(o2, a, layer_b);
            lemma_notified_keeps_ids(o3, b, layer_a);
            lemma_same_ids_same_first(objects, o1, a);
            lemma_same_ids_same_first(objects, o1, b);
            lemma_same_ids_same_first(o1, o2, a);
            lemma_same_ids_same_first(o1, o2, b);
            lemma_same_ids_same_first(o2, o3, a);
            lemma_same_ids_same_first(o2, o3, b);
            if has_id(objects, a) {
                lemma_has_first(objects, a);
            }
            if has_id(objects, b) {
                lemma_has_first(objects, b);
            }
            assert forall|i: int| 0 <= i < objects.len() implies #[trigger] o4[i] == o2[i] by {
                lemma_hit_twice(objects[i], layer_b, layer_a);
                lemma_hit_twice(objects[i], layer_a, layer_b);
                lemma_hit_twice(objects[i], layer_a, layer_a);
                lemma_hit_twice(objects[i], layer_b, layer_b);
            }
            assert(o4 =~= o2);
        },
        _ => {},
    }
}

/// A collision notice that names an object which is no longer there is
/// passed over for that object and still reaches the other one: the first
/// object named `a` learns the layer of `b`, and nothing else changes.
pub proof fn lemma_notice_reaches_survivor<B>(
    objects: Seq<Entity<B>>,
    a: u32,
    b: u32,
    layer_a: ColLayer,
    layer_b: ColLayer,
)
    requires
        has_id(objects, a),
        !has_id(objects, b),
    ensures
        delivered(objects, SceneEvent::Collision { a, b, layer_a, layer_b }) == objects.update(
            first_with_id(objects, a),
            objects[first_with_id(objects, a)].hit_by(layer_b),
        ),
        delivered(objects, SceneEvent::Collision { a: b, b: a, layer_a: layer_b, layer_b: layer_a })
            == objects.update(
            first_with_id(objects, a),
            objects[first_with_id(objects, a)].hit_by(layer_b),
        ),
{
    lemma_notified_keeps_ids(objects, a, layer_b);
}

/// A collision notice of which neither object is there any more changes
/// nothing.
pub proof fn lemma_notice_without_objects<B>(
    objects: Seq<Entity<B>>,
    a: u32,
    b: u32,
    layer_a: ColLayer,
    layer_b: ColLayer,
)
    requires
        !has_id(objects, a),
        !has_id(objects, b),
    ensures
        delivered(objects, SceneEvent::Collision { a, b, layer_a, layer_b }) == objects,
{
}

/// The number of spawn requests among the events.
pub open spec fn spawns<B>(events: Seq<SceneEvent<B>>) -> nat
    decreases events.len(),
{
    if events.len() == 0 {
        0
    } else {
        spawns(events.drop_last()) + if events.last() is SpawnEntity {
            1nat
        } else {
            0nat
        }
    }
}

/// Every object carries an identifier below the bound.
pub open spec fn ids_below<B>(objects: Seq<Entity<B>>, bound: u32) -> bool {
    forall|i: int| 0 <= i < objects.len() ==> (#[trigger] objects[i]).id() < bound
}

/// No two objects carry the same identifier.
pub open spec fn ids_distinct<B>(objects: Seq<Entity<B>>) -> bool {
    forall|i: int, j: int|
        0 <= i < j < objects.len() ==> (#[trigger] objects[i]).id() != (#[trigger] objects[j]).id()
}

/// The identifier under which the spawn request at position `at` of the
/// events puts its object, when the events are applied from `next` on.
pub open spec fn spawn_id<B>(next: u32, events: Seq<SceneEvent<B>>, at: int) -> u32 {
    nth_id(next, spawns(events.take(at)))
}

/// Removal keeps the identifiers of the objects that stay below every bound
/// that held them, and distinct if they were.
pub proof fn lemma_without_keeps<B>(objects: Seq<Entity<B>>, id: u32, bound: u32)
    ensures
        ids_below(objects, bound) ==> ids_below(without(objects, id), bound),
        ids_distinct(objects) ==> ids_distinct(without(objects, id)),
{
    if has_id(objects, id) {
        let first = first_with_id(objects, id);
        lemma_has_first(objects, id);
        let rest = objects.remove(first);
        if ids_below(objects, bound) {
            assert forall|i: int| 0 <= i < rest.len() implies (#[trigger] rest[i]).id()
                < bound by {
                if i < first {
                    assert(rest[i] == objects[i]);
                } else {
                    assert(rest[i] == objects[i + 1]);
                }
            }
        }
        if ids_distinct(objects) {
            assert forall|i: int, j: int| 0 <= i < j < rest.len() implies (#[trigger] rest[i]).id()
                != (#[trigger] rest[j]).id() by {
                let oi = if i < first {
                    i
                } else {
                    i + 1
                };
                let oj = if j < first {
                    j
                } else {
                    j + 1
                };
                assert(rest[i] == objects[oi]);
                assert(rest[j] == objects[oj]);
            }
        }
    }
}

proof fn lemma_spawns_monotone<B>(events: Seq<SceneEvent<B>>, i: int, j: int)
    requires
        0 <= i <= j <= events.len(),
    ensures
        spawns(events.take(i)) <= spawns(events.take(j)),
        i < j && events[i] is SpawnEntity ==> spawns(events.take(i)) < spawns(events.take(j)),
    decreases j - i,
{
    if i < j {
        assert(events.take(j).drop_last() =~= events.take(j - 1));
        assert(events.take(j).last() == events[j - 1]);
        lemma_spawns_monotone(events, i, j - 1);
    }
}

/// Spawning hands out identifiers in strictly increasing order and never
/// one that an object carries or carried: as long as the counter does not
/// wrap, applying a batch advances the counter by the number of its spawn
/// requests, all objects stay below the counter, and objects that carried
/// distinct identifiers before still do. Destroy requests do not move the
/// counter, so the identifier of a destroyed object is not handed out again.
pub proof fn lemma_spawned_ids_fresh<B>(objects: Seq<Entity<B>>, next: u32, events: Seq<SceneEvent<B>>)
    requires
        ids_below(objects, next),
        next + spawns(events) <= u32::MAX,
    ensures
        applied_all(objects, next, events).1 == next + spawns(events),
        ids_below(applied_all(objects, next, events).0, applied_all(objects, next, events).1),
        ids_distinct(objects) ==> ids_distinct(applied_all(objects, next, events).0),
    decreases events.len(),
{
    if events.len() > 0 {
        let earlier = events.drop_last();
        lemma_spawned_ids_fresh(objects, next, earlier);
        let before = applied_all(objects, next, earlier);
        match events.last() {
            SceneEvent::SpawnEntity(e) => {
                let grown = before.0.push(e.with_id(before.1));
                assert forall|i: int| 0 <= i < grown.len() implies (#[trigger] grown[i]).id()
                    < bump(before.1) by {
                    if i < before.0.len() {
                        assert(grown[i] == before.0[i]);
                    }
                }
                if ids_distinct(objects) {
                    assert forall|i: int, j: int| 0 <= i < j < grown.len() implies (
                    #[trigger] grown[i]).id() != (#[trigger] grown[j]).id() by {
                        assert(grown[i] == before.0[i]);
                        if j < before.0.len() {
                            assert(grown[j] == before.0[j]);
                        }
                    }
                }
            },
            SceneEvent::DestroyEntity(id) => {
                lemma_without_keeps(before.0, id, before.1);
            },
            _ => {},
        }
    }
}

/// The spawn request at position `at` puts its object under
/// [`spawn_id`], at the end of the objects that are there at that moment.
pub proof fn lemma_spawn_id<B>(objects: Seq<Entity<B>>, next: u32, events: Seq<SceneEvent<B>>, at: int)
    requires
        0 <= at < events.len(),
        events[at] is SpawnEntity,
    ensures
        applied_all(objects, next, events.take(at)).1 == spawn_id(next, events, at),
        applied_all(objects, next, events.take(at + 1)).0.last().id() == spawn_id(next, events, at),
{
    lemma_counter_after(objects, next, events.take(at));
    assert(events.take(at + 1).drop_last() =~= events.take(at));
    assert(events.take(at + 1).last() == events[at]);
}

proof fn lemma_counter_after<B>(objects: Seq<Entity<B>>, next: u32, events: Seq<SceneEvent<B>>)
    ensures
        applied_all(objects, next, events).1 == nth_id(next, spawns(events)),
    decreases events.len(),
{
    if events.len() > 0 {
        lemma_counter_after(objects, next, events.drop_last());
    }
}

/// Of two spawn requests in one batch the later one gets the larger
/// identifier, as long as the counter does not wrap.
pub proof fn lemma_spawn_ids_increase<B>(next: u32, events: Seq<SceneEvent<B>>, i: int, j: int)
    requires
        0 <= i < j < events.len(),
        events[i] is SpawnEntity,
        events[j] is SpawnEntity,
        next + spawns(events) <= u32::MAX,
    ensures
        spawn_id(next, events, i) < spawn_id(next, events, j),
{
    lemma_spawns_monotone(events, i, j);
    lemma_spawns_monotone(events, j, events.len() as int);
    assert(events.take(events.len() as int) =~= events);
    lemma_nth_id(next, spawns(events.take(i)));
    lemma_nth_id(next, spawns(events.take(j)));
}

/// The objects of `after` stand where those of `before` stood, under the
/// same identifiers.
pub open spec fn same_ids<B>(before: Seq<Entity<B>>, after: Seq<Entity<B>>) -> bool {
    &&& after.len() == before.len()
    &&& forall|i: int| 0 <= i < before.len() ==> (#[trigger] after[i]).id() == before[i].id()
}

/// Spawning from `next` on took `objects` to `after` and the counter to
/// `next_after` with fresh identifiers. Where every object carried an
/// identifier below the counter and the counter has room for the batch:
/// the counter has advanced by the number of spawn requests; every object
/// still lies below it; the objects carry distinct identifiers if they did;
/// each spawn request got an identifier from the old counter on, so one
/// greater than every identifier handed out before; and of two spawn
/// requests the later got the greater identifier.
pub open spec fn spawned_fresh<B>(
    objects: Seq<Entity<B>>,
    next: u32,
    events: Seq<SceneEvent<B>>,
    after: Seq<Entity<B>>,
    next_after: u32,
) -> bool {
    ids_below(objects, next) && next + spawns(events) <= u32::MAX ==> {
        &&& next_after == next + spawns(events)
        &&& ids_below(after, next_after)
        &&& ids_distinct(objects) ==> ids_distinct(after)
        &&& forall|i: int|
            0 <= i < events.len() && events[i] is SpawnEntity ==> next <= #[trigger] spawn_id(
                next,
                events,
                i,
            ) < next_after
        &&& forall|i: int, j: int|
            0 <= i < j < events.len() && events[i] is SpawnEntity && events[j] is SpawnEntity
                ==> #[trigger] spawn_id(next, events, i) < #[trigger] spawn_id(next, events, j)
    }
}

/// Objects that kept their identifiers lie below the same bounds and are
/// distinct if they were.
pub proof fn lemma_same_ids_keep<B>(before: Seq<Entity<B>>, after: Seq<Entity<B>>, bound: u32)
    requires
        same_ids(before, after),
    ensures
        ids_below(before, bound) ==> ids_below(after, bound),
        ids_distinct(before) ==> ids_distinct(after),
{
    if ids_below(before, bound) {
        assert forall|i: int| 0 <= i < after.len() implies (#[trigger] after[i]).id() < bound by {
            assert(before[i].id() < bound);
        }
    }
    if ids_distinct(before) {
        assert forall|i: int, j: int| 0 <= i < j < after.len() implies (#[trigger] after[i]).id()
            != (#[trigger] after[j]).id() by {
            assert(before[i].id() != before[j].id());
        }
    }
}

/// Delivering collision notices leaves every object in its place and under
/// its identifier.
pub proof fn lemma_delivered_keeps_ids<B>(objects: Seq<Entity<B>>, events: Seq<SceneEvent<B>>)
    ensures
        same_ids(objects, delivered_all(objects, events)),
    decreases events.len(),
{
    if events.len() > 0 {
        lemma_delivered_keeps_ids(objects, events.drop_last());
        let before = delivered_all(objects, events.drop_last());
        match events.last() {
            SceneEvent::Collision { a, b, layer_a, layer_b } => {
                let first = notified(before, a, layer_b);
                lemma_notified_keeps_ids(before, a, layer_b);
                lemma_notified_keeps_ids(first, b, layer_a);
                let second = notified(first, b, layer_a);
                assert forall|i: int| 0 <= i < objects.len() implies (#[trigger] second[i]).id()
                    == objects[i].id() by {
                    assert(first[i].id() == before[i].id());
                }
            },
            _ => {},
        }
    }
}

/// Applying a batch hands out fresh identifiers, as [`spawned_fresh`] says.
pub proof fn lemma_spawned_fresh<B>(objects: Seq<Entity<B>>, next: u32, events: Seq<SceneEvent<B>>)
    ensures
        spawned_fresh(
            objects,
            next,
            events,
            applied_all(objects, next, events).0,
            applied_all(objects, next, events).1,
        ),
{
    if ids_below(objects, next) && next + spawns(events) <= u32::MAX {
        lemma_spawned_ids_fresh(objects, next, events);
        assert(events.take(events.len() as int) =~= events);
        assert forall|i: int| 0 <= i < events.len() && events[i] is SpawnEntity implies next
            <= #[trigger] spawn_id(next, events, i) < next + spawns(events) by {
            lemma_spawns_monotone(events, i, events.len() as int);
            lemma_nth_id(next, spawns(events.take(i)));
        }
        assert forall|i: int, j: int|
            0 <= i < j < events.len() && events[i] is SpawnEntity
                && events[j] is SpawnEntity implies #[trigger] spawn_id(next, events, i)
            < #[trigger] spawn_id(next, events, j) by {
            lemma_spawn_ids_increase(next, events, i, j);
        }
    }
}

/// Looks for the first object that carries the identifier.
pub fn find_entity<B>(objects: &Vec<Entity<B>>, id: u32) -> (found: Option<usize>)
    ensures
        found is Some <==> has_id(objects@, id),
        found matches Some(i) ==> i == first_with_id(objects@, id) && is_first_with_id(
            objects@,
            id,
            i as int,
        ),
{
    let mut i: usize = 0;
    while i < objects.len()
        invariant
            i <= objects.len(),
            forall|j: int| 0 <= j < i ==> (#[trigger] objects@[j]).id() != id,
        decreases objects.len() - i,
    {
        if objects[i].get_entity_id() == id {
            proof {
                lemma_first_with_id(objects@, id, i as int);
            }
            return Some(i);
        }
        i += 1;
    }
    None
}

/// Hands back the elements in the opposite order.
fn reversed<T>(items: Vec<T>) -> (turned: Vec<T>)
    ensures
        turned@ == items@.reverse(),
{
    let mut items = items;
    let ghost all = items@;
    let mut turned: Vec<T> = Vec::new();
    while items.len() > 0
        invariant
            items@.len() + turned@.len() == all.len(),
            items@ == all.take(items@.len() as int),
            forall|j: int| 0 <= j < turned@.len() ==> turned@[j] == all[all.len() - 1 - j],
        decreases items.len(),
    {
        let item = items.pop().unwrap();
        turned.push(item);
    }
    assert(turned@ =~= all.reverse());
    turned
}

/// The live objects of a scene, in the order in which they are drawn.
pub struct Scene<B> {
    entities: Vec<Entity<B>>,
}

impl<B> View for Scene<B> {
    type V = Seq<Entity<B>>;

    closed spec fn view(&self) -> Seq<Entity<B>> {
        self.entities@
    }
}

impl<B> Scene<B> {
    /// A scene without objects.
    pub fn new() -> (scene: Self)
        ensures
            scene@ == Seq::<Entity<B>>::empty(),
    {
        Scene { entities: Vec::new() }
    }

    /// The live objects.
    pub fn get_entities(&self) -> (entities: &Vec<Entity<B>>)
        ensures
            entities@ == self@,
    {
        &self.entities
    }

    /// The live objects, for the caller to change in place.
    pub fn get_entities_mut(&mut self) -> (entities: &mut Vec<Entity<B>>)
        ensures
            entities@ == old(self)@,
            final(self)@ == final(entities)@,
    {
        &mut self.entities
    }

    /// Appends the object under the allocator's next identifier, which is
    /// returned.
    pub fn add_entity(&mut self, ids: &mut IdAllocator, entity: Entity<B>) -> (id: u32)
        ensures
            id == old(ids).next_id(),
            final(ids).next_id() == bump(id),
            final(self)@ == old(self)@.push(entity.with_id(id)),
            ids_below(old(self)@, id) ==> !has_id(old(self)@, id),
            ids_below(old(self)@, id) && id < u32::MAX ==> ids_below(
                final(self)@,
                final(ids).next_id(),
            ),
            ids_below(old(self)@, id) && ids_distinct(old(self)@) ==> ids_distinct(final(self)@),
    {
        let id = get_uniq_id(ids);
        let mut entity = entity;
        entity.set_entity_id(id);
        self.entities.push(entity);
        proof {
            let before = old(self)@;
            let after = self@;
            if ids_below(before, id) {
                if has_id(before, id) {
                    let i = choose|i: int| 0 <= i < before.len() && (#[trigger] before[i]).id() == id;
                    assert(before[i].id() < id);
                }
                if id < u32::MAX {
                    assert forall|i: int| 0 <= i < after.len() implies (#[trigger] after[i]).id()
                        < bump(id) by {
                        if i < before.len() {
                            assert(after[i] == before[i]);
                        }
                    }
                }
                if ids_distinct(before) {
                    assert forall|i: int, j: int| 0 <= i < j < after.len() implies (
                    #[trigger] after[i]).id() != (#[trigger] after[j]).id() by {
                        assert(after[i] == before[i]);
                        if j < before.len() {
                            assert(after[j] == before[j]);
                        }
                    }
                }
            }
        }
        id
    }

    /// Removes the first object that carries the identifier; the objects
    /// behind it move up by one. Without such an object nothing changes.
    pub fn remove_entity(&mut self, entity_id: u32)
        ensures
            final(self)@ == without(old(self)@, entity_id),
            forall|bound: u32| #[trigger]
                ids_below(old(self)@, bound) ==> ids_below(final(self)@, bound),
            ids_distinct(old(self)@) ==> ids_distinct(final(self)@),
    {
        match find_entity(&self.entities, entity_id) {
            Some(i) => {
                let _ = self.entities.remove(i);
            },
            None => {},
        }
        proof {
            lemma_without_keeps(old(self)@, entity_id, 0);
            assert forall|bound: u32| #[trigger] ids_below(old(self)@, bound) implies ids_below(
                self@,
                bound,
            ) by {
                lemma_without_keeps(old(self)@, entity_id, bound);
            }
        }
    }

    /// Tells the first object that carries the identifier of a contact with
    /// `layer`. Without such an object nothing happens.
    pub fn notify(&mut self, entity_id: u32, layer: ColLayer)
        ensures
            final(self)@ == notified(old(self)@, entity_id, layer),
            same_ids(old(self)@, final(self)@),
    {
        match find_entity(&self.entities, entity_id) {
            Some(i) => {
                self.entities[i].on_collision(layer);
                assert(self.entities@ =~= notified(old(self)@, entity_id, layer));
            },
            None => {},
        }
        proof {
            lemma_notified_keeps_ids(old(self)@, entity_id, layer);
        }
    }

    /// Applies the structural events of a batch in their order: each spawn
    /// request appends its object under a fresh identifier, each destroy
    /// request removes the first object with its identifier. The batch is
    /// handed back with every spawn request replaced by
    /// [`SceneEvent::Nothing`] and every other event as it was.
    pub fn apply_events(&mut self, ids: &mut IdAllocator, commands: Vec<SceneEvent<B>>) -> (batch:
        Vec<SceneEvent<B>>)
        ensures
            (final(self)@, final(ids).next_id()) == applied_all(
                old(self)@,
                old(ids).next_id(),
                commands@,
            ),
            batch@ == commands@.map_values(|e: SceneEvent<B>| settled(e)),
            spawned_fresh(
                old(self)@,
                old(ids).next_id(),
                commands@,
                final(self)@,
                final(ids).next_id(),
            ),
    {
        let ghost all = commands@;
        let mut pending = reversed(commands);
        let mut batch: Vec<SceneEvent<B>> = Vec::new();
        while pending.len() > 0
            invariant
                pending@.len() + batch@.len() == all.len(),
                pending@ == all.reverse().take(pending@.len() as int),
                (self@, ids.next_id()) == applied_all(
                    old(self)@,
                    old(ids).next_id(),
                    all.take(batch@.len() as int),
                ),
                batch@ == all.take(batch@.len() as int).map_values(|e: SceneEvent<B>| settled(e)),
            decreases pending.len(),
        {
            let ghost k = batch@.len() as int;
            let command = pending.pop().unwrap();
            proof {
                assert(command == all[k]);
                assert(all.take(k + 1).drop_last() =~= all.take(k));
                assert(all.take(k + 1).last() == all[k]);
            }
            match command {
                SceneEvent::SpawnEntity(entity) => {
                    let _ = self.add_entity(ids, entity);
                    batch.push(SceneEvent::Nothing);
                },
                SceneEvent::DestroyEntity(id) => {
                    self.remove_entity(id);
                    batch.push(SceneEvent::DestroyEntity(id));
                },
                other => {
                    batch.push(other);
                },
            }
            assert(batch@ =~= all.take(k + 1).map_values(|e: SceneEvent<B>| settled(e)));
        }
        assert(all.take(all.len() as int) =~= all);
        proof {
            lemma_spawned_fresh(old(self)@, old(ids).next_id(), all);
        }
        batch
    }

    /// Updates every object once, in the order of the scene, and gathers the
    /// events that the updates emit into one batch.
    ///
    /// `step` is the update of one object: it gets the object and hands it
    /// back with the events it emits. No object is added or removed here.
    pub fn collect<F: Fn(Entity<B>) -> (Entity<B>, Vec<SceneEvent<B>>)>(&mut self, step: &F) -> (commands:
        Vec<SceneEvent<B>>)
        requires
            forall|e: Entity<B>| step.requires((e,)),
        ensures
            exists|outcomes: Seq<(Entity<B>, Vec<SceneEvent<B>>)>|
                stepped(old(self)@, *step, outcomes) && final(self)@ == survivors(outcomes)
                    && commands@ == gathered(outcomes),
    {
        let mut before: Vec<Entity<B>> = Vec::new();
        core::mem::swap(&mut self.entities, &mut before);
        let ghost all = before@;
        let mut waiting = reversed(before);
        let mut commands: Vec<SceneEvent<B>> = Vec::new();
        let ghost mut outcomes: Seq<(Entity<B>, Vec<SceneEvent<B>>)> = Seq::empty();
        while waiting.len() > 0
            invariant
                forall|e: Entity<B>| step.requires((e,)),
                waiting@.len() + outcomes.len() == all.len(),
                waiting@ == all.reverse().take(waiting@.len() as int),
                stepped(all.take(outcomes.len() as int), *step, outcomes),
                self.entities@ == survivors(outcomes),
                commands@ == gathered(outcomes),
            decreases waiting.len(),
        {
            let ghost k = outcomes.len() as int;
            let entity = waiting.pop().unwrap();
            assert(entity == all[k]);
            let (entity, mut emitted) = step(entity);
            proof {
                let grown = outcomes.push((entity, emitted));
                assert(grown.drop_last() =~= outcomes);
                assert(stepped(all.take(k + 1), *step, grown));
                assert(survivors(grown) =~= survivors(outcomes).push(entity));
                outcomes = grown;
            }
            self.entities.push(entity);
            commands.append(&mut emitted);
        }
        proof {
            assert(all.take(all.len() as int) =~= all);
            assert(stepped(old(self)@, *step, outcomes) && self@ == survivors(outcomes)
                && commands@ == gathered(outcomes));
        }
        commands
    }

    /// Delivers the collision notices of a batch in their order: for each
    /// notice, the first object named `a` learns the layer of `b` and the
    /// first object named `b` learns the layer of `a`. An identifier that no
    /// object carries any more is passed over.
    pub fn apply_collisions(&mut self, events: &Vec<SceneEvent<B>>)
        ensures
            final(self)@ == delivered_all(old(self)@, events@),
            same_ids(old(self)@, final(self)@),
    {
        proof {
            lemma_delivered_keeps_ids(old(self)@, events@);
        }
        let mut k: usize = 0;
        while k < events.len()
            invariant
                k <= events.len(),
                self@ == delivered_all(old(self)@, events@.take(k as int)),
            decreases events.len() - k,
        {
            proof {
                assert(events@.take(k + 1).drop_last() =~= events@.take(k as int));
                assert(events@.take(k + 1).last() == events@[k as int]);
            }
            match &events[k] {
                SceneEvent::Collision { a, b, layer_a, layer_b } => {
                    self.notify(*a, *layer_b);
                    self.notify(*b, *layer_a);
                },
                _ => {},
            }
            k += 1;
        }
        assert(events@.take(events@.len() as int) =~= events@);
    }

    /// The simulation part of one frame, in four strictly ordered passes.
    ///
    /// 1. Every object is updated once by `step`, and the events of all
    ///    updates are gathered into one batch.
    /// 2. The structural events of the batch are applied in their order.
    /// 3. The objects that are there now are tested pair by pair with `hit`.
    /// 4. Each object of a touching pair that is still there learns the
    ///    layer of the other.
    ///
    /// The batch of the first pass is handed back for the scene's own
    /// rules, with every spawn request replaced by [`SceneEvent::Nothing`].
    ///
    /// Where the updates leave every object under an identifier below the
    /// counter and the counter has room, the objects spawned in the frame
    /// get strictly increasing identifiers, each greater than every
    /// identifier handed out before, and the scene's identifiers stay below
    /// the counter.
    pub fn update_entity<F, H>(&mut self, ids: &mut IdAllocator, step: &F, hit: &H) -> (batch: Vec<
        SceneEvent<B>,
    >) where F: Fn(Entity<B>) -> (Entity<B>, Vec<SceneEvent<B>>), H: Fn(&B, &B) -> bool
        requires
            forall|e: Entity<B>| step.requires((e,)),
            forall|x: &B, y: &B| hit.requires((x, y)),
        ensures
            exists|outcomes: Seq<(Entity<B>, Vec<SceneEvent<B>>)>, touching: Set<(int, int)>|
                frame(
                    old(self)@,
                    old(ids).next_id(),
                    *step,
                    *hit,
                    outcomes,
                    touching,
                    final(self)@,
                    final(ids).next_id(),
                    batch@,
                ),
    {
        let commands = self.collect(step);
        let ghost outcomes = choose|outcomes: Seq<(Entity<B>, Vec<SceneEvent<B>>)>|
            stepped(old(self)@, *step, outcomes) && self@ == survivors(outcomes) && commands@
                == gathered(outcomes);
        let batch = self.apply_events(ids, commands);
        let ghost present = self@;
        let notices = detect_collisions(&self.entities, hit);
        let ghost touching = choose|touching: Set<(int, int)>|
            judged(present, *hit, touching) && notices@ == contacts(present, touching);
        self.apply_collisions(&notices);
        proof {
            let next = old(ids).next_id();
            if ids_below(survivors(outcomes), next) && next + spawns(gathered(outcomes))
                <= u32::MAX {
                lemma_same_ids_keep(present, self@, ids.next_id());
            }
        }
        assert(frame(
            old(self)@,
            old(ids).next_id(),
            *step,
            *hit,
            outcomes,
            touching,
            self@,
            ids.next_id(),
            batch@,
        ));
        batch
    }
}

} // verus!
