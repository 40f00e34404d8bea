//! Collision detection: every pair of objects that may collide is put to the
//! caller's geometric test, and each touching pair yields one notice.

use vstd::prelude::*;
use crate::entity::Entity;
use crate::events::SceneEvent;
use crate::layers::{layers_collide, lemma_table_symmetric, may_collide};
use crate::scene::{delivered_all, ids_distinct, same_ids, Scene};

verus! {

/// The two objects are put to the geometric test: they are different
/// objects, both take part in collisions, and their layers may collide.
pub open spec fn eligible<B>(x: Entity<B>, y: Entity<B>) -> bool {
    &&& x.id() != y.id()
    &&& x.collides()
    &&& y.collides()
    &&& may_collide(x.layer(), y.layer())
}

/// Which of two objects comes first in the scene does not matter for whether
/// the pair is put to the geometric test.
pub proof fn lemma_eligible_symmetric<B>(x: Entity<B>, y: Entity<B>)
    ensures
        eligible(x, y) == eligible(y, x),
{
    lemma_table_symmetric(x.layer(), y.layer());
}

/// The notice that `x` and `y` touch.
pub open spec fn contact<B>(x: Entity<B>, y: Entity<B>) -> SceneEvent<B> {
    SceneEvent::Collision { a: x.id(), b: y.id(), layer_a: x.layer(), layer_b: y.layer() }
}

/// The notice for the pair at positions `i` and `j`, if the pair is
/// eligible and touches.
pub open spec fn pair_contacts<B>(
    objects: Seq<Entity<B>>,
    touching: Set<(int, int)>,
    i: int,
    j: int,
) -> Seq<SceneEvent<B>> {
    if eligible(objects[i], objects[j]) && touching.contains((i, j)) {
        seq![contact(objects[i], objects[j])]
    } else {
        seq![]
    }
}

/// The notices for the pairs `(i, j)` with `i < j < end`, by rising `j`.
pub open spec fn row_contacts<B>(
    objects: Seq<Entity<B>>,
    touching: Set<(int, int)>,
    i: int,
    end: int,
) -> Seq<SceneEvent<B>>
    decreases end - i,
{
    if end <= i + 1 {
        seq![]
    } else {
        row_contacts(objects, touching, i, end - 1) + pair_contacts(objects, touching, i, end - 1)
    }
}

/// The notices for the pairs `(i, j)` with `i < rows` and `i < j`, by rising
/// `i` and then by rising `j`.
pub open spec fn contacts_upto<B>(
    objects: Seq<Entity<B>>,
    touching: Set<(int, int)>,
    rows: int,
) -> Seq<SceneEvent<B>>
    decreases rows,
{
    if rows <= 0 {
        seq![]
    } else {
        contacts_upto(objects, touching, rows - 1) + row_contacts(
            objects,
            touching,
            rows - 1,
            objects.len() as int,
        )
    }
}

/// One notice for each unordered pair of objects that is eligible and
/// touches, in the order of the pairs `(i, j)`, `i < j`.
pub open spec fn contacts<B>(objects: Seq<Entity<B>>, touching: Set<(int, int)>) -> Seq<
    SceneEvent<B>,
> {
    contacts_upto(objects, touching, objects.len() as int)
}

/// `touching` holds for each eligible pair what the geometric test `hit`
/// answered for the two objects' numeric parts.
pub open spec fn judged<B, F: Fn(&B, &B) -> bool>(
    objects: Seq<Entity<B>>,
    hit: F,
    touching: Set<(int, int)>,
) -> bool {
    forall|i: int, j: int|
        0 <= i < j < objects.len() && eligible(objects[i], objects[j]) ==> hit.ensures(
            (&objects[i].body(), &objects[j].body()),
            #[trigger] touching.contains((i, j)),
        )
}

proof fn lemma_row_depends_on_visited<B>(
    objects: Seq<Entity<B>>,
    t1: Set<(int, int)>,
    t2: Set<(int, int)>,
    i: int,
    end: int,
)
    requires
        forall|j: int| i < j < end ==> t1.contains((i, j)) == t2.contains((i, j)),
    ensures
        row_contacts(objects, t1, i, end) == row_contacts(objects, t2, i, end),
    decreases end - i,
{
    if end > i + 1 {
        lemma_row_depends_on_visited(objects, t1, t2, i, end - 1);
    }
}

proof fn lemma_rows_depend_on_visited<B>(
    objects: Seq<Entity<B>>,
    t1: Set<(int, int)>,
    t2: Set<(int, int)>,
    rows: int,
)
    requires
        forall|i: int, j: int| 0 <= i < rows && i < j ==> t1.contains((i, j)) == t2.contains((i, j)),
    ensures
        contacts_upto(objects, t1, rows) == contacts_upto(objects, t2, rows),
    decreases rows,
{
    if rows > 0 {
        lemma_rows_depend_on_visited(objects, t1, t2, rows - 1);
        lemma_row_depends_on_visited(objects, t1, t2, rows - 1, objects.len() as int);
    }
}

/// The geometric test does not care which of the two bodies comes first.
pub open spec fn symmetric_test<B, F: Fn(&B, &B) -> bool>(hit: F) -> bool {
    forall|x: B, y: B, answer: bool| #[trigger]
        hit.ensures((&x, &y), answer) ==> hit.ensures((&y, &x), answer)
}

/// The geometric test gives one answer for each pair of bodies.
pub open spec fn single_answer<B, F: Fn(&B, &B) -> bool>(hit: F) -> bool {
    forall|x: B, y: B, one: bool, other: bool|
        #[trigger] hit.ensures((&x, &y), one) && #[trigger] hit.ensures((&x, &y), other) ==> one
            == other
}

/// The notice `event` stands for the pair at positions `i < j`, which is
/// eligible and touches.
pub open spec fn reports<B>(
    objects: Seq<Entity<B>>,
    touching: Set<(int, int)>,
    event: SceneEvent<B>,
    i: int,
    j: int,
) -> bool {
    &&& 0 <= i < j < objects.len()
    &&& eligible(objects[i], objects[j])
    &&& touching.contains((i, j))
    &&& event == contact(objects[i], objects[j])
}

proof fn lemma_concat_contains<A>(a: Seq<A>, b: Seq<A>, x: A)
    ensures
        (a + b).contains(x) <==> a.contains(x) || b.contains(x),
{
    let ab = a + b;
    if a.contains(x) {
        let k = choose|k: int| 0 <= k < a.len() && a[k] == x;
        assert(ab[k] == x);
    }
    if b.contains(x) {
        let k = choose|k: int| 0 <= k < b.len() && b[k] == x;
        assert(ab[a.len() + k] == x);
    }
    if ab.contains(x) {
        let k = choose|k: int| 0 <= k < ab.len() && ab[k] == x;
        if k < a.len() {
            assert(a[k] == x);
        } else {
            assert(b[k - a.len()] == x);
        }
    }
}

proof fn lemma_row_holds<B>(
    objects: Seq<Entity<B>>,
    touching: Set<(int, int)>,
    i: int,
    j: int,
    end: int,
)
    requires
        0 <= i < j < end,
        eligible(objects[i], objects[j]),
        touching.contains((i, j)),
    ensures
        row_contacts(objects, touching, i, end).contains(contact(objects[i], objects[j])),
    decreases end - j,
{
    let c = contact(objects[i], objects[j]);
    let earlier = row_contacts(objects, touching, i, end - 1);
    let last = pair_contacts(objects, touching, i, end - 1);
    lemma_concat_contains(earlier, last, c);
    if end == j + 1 {
        assert(last[0] == c);
    } else {
        lemma_row_holds(objects, touching, i, j, end - 1);
    }
}

proof fn lemma_rows_hold<B>(
    objects: Seq<Entity<B>>,
    touching: Set<(int, int)>,
    i: int,
    j: int,
    rows: int,
)
    requires
        0 <= i < j < objects.len(),
        i < rows,
        eligible(objects[i], objects[j]),
        touching.contains((i, j)),
    ensures
        contacts_upto(objects, touching, rows).contains(contact(objects[i], objects[j])),
    decreases rows - i,
{
    let c = contact(objects[i], objects[j]);
    let earlier = contacts_upto(objects, touching, rows - 1);
    let last = row_contacts(objects, touching, rows - 1, objects.len() as int);
    lemma_concat_contains(earlier, last, c);
    if rows == i + 1 {
        lemma_row_holds(objects, touching, i, j, objects.len() as int);
    } else {
        lemma_rows_hold(objects, touching, i, j, rows - 1);
    }
}

proof fn lemma_row_source<B>(
    objects: Seq<Entity<B>>,
    touching: Set<(int, int)>,
    i: int,
    end: int,
    event: SceneEvent<B>,
) -> (j: int)
    requires
        0 <= i,
        end <= objects.len(),
        row_contacts(objects, touching, i, end).contains(event),
    ensures
        j < end,
        reports(objects, touching, event, i, j),
    decreases end - i,
{
    if end <= i + 1 {
        let k = choose|k: int|
            0 <= k < row_contacts(objects, touching, i, end).len() && row_contacts(
                objects,
                touching,
                i,
                end,
            )[k] == event;
        assert(false);
        0
    } else {
        let earlier = row_contacts(objects, touching, i, end - 1);
        let last = pair_contacts(objects, touching, i, end - 1);
        lemma_concat_contains(earlier, last, event);
        if earlier.contains(event) {
            lemma_row_source(objects, touching, i, end - 1, event)
        } else {
            let k = choose|k: int| 0 <= k < last.len() && last[k] == event;
            assert(last[0] == event);
            end - 1
        }
    }
}

proof fn lemma_rows_source<B>(
    objects: Seq<Entity<B>>,
    touching: Set<(int, int)>,
    rows: int,
    event: SceneEvent<B>,
) -> (pair: (int, int))
    requires
        rows <= objects.len(),
        contacts_upto(objects, touching, rows).contains(event),
    ensures
        reports(objects, touching, event, pair.0, pair.1),
    decreases rows,
{
    if rows <= 0 {
        let k = choose|k: int|
            0 <= k < contacts_upto(objects, touching, rows).len() && contacts_upto(
                objects,
                touching,
                rows,
            )[k] == event;
        assert(false);
        (0, 0)
    } else {
        let earlier = contacts_upto(objects, touching, rows - 1);
        let last = row_contacts(objects, touching, rows - 1, objects.len() as int);
        lemma_concat_contains(earlier, last, event);
        if earlier.contains(event) {
            lemma_rows_source(objects, touching, rows - 1, event)
        } else {
            let j = lemma_row_source(objects, touching, rows - 1, objects.len() as int, event);
            (rows - 1, j)
        }
    }
}

/// Every eligible pair that touches has its notice among the notices.
pub proof fn lemma_contact_reported<B>(
    objects: Seq<Entity<B>>,
    touching: Set<(int, int)>,
    i: int,
    j: int,
)
    requires
        0 <= i < j < objects.len(),
        eligible(objects[i], objects[j]),
        touching.contains((i, j)),
    ensures
        contacts(objects, touching).contains(contact(objects[i], objects[j])),
{
    lemma_rows_hold(objects, touching, i, j, objects.len() as int);
}

/// Every notice stands for an eligible pair that touches.
pub proof fn lemma_reported_contact<B>(
    objects: Seq<Entity<B>>,
    touching: Set<(int, int)>,
    event: SceneEvent<B>,
)
    requires
        contacts(objects, touching).contains(event),
    ensures
        exists|i: int, j: int| #[trigger] reports(objects, touching, event, i, j),
{
    let pair = lemma_rows_source(objects, touching, objects.len() as int, event);
    assert(reports(objects, touching, event, pair.0, pair.1));
}

/// The verdict for an unordered pair of objects does not depend on where
/// the two stand in the list, nor on which of them comes first.
///
/// Take two lists of objects with distinct identifiers that both hold the
/// same two objects, at positions `i < j` in the one and `k < l` in the
/// other, in either order. Where the geometric test is symmetric in its two
/// bodies and gives one answer for each pair, the pair has a notice among
/// the notices for the one list exactly if it has one among the notices for
/// the other.
pub proof fn lemma_verdict_order_independent<B, F: Fn(&B, &B) -> bool>(
    one: Seq<Entity<B>>,
    other: Seq<Entity<B>>,
    hit: F,
    touching_one: Set<(int, int)>,
    touching_other: Set<(int, int)>,
    i: int,
    j: int,
    k: int,
    l: int,
)
    requires
        symmetric_test(hit),
        single_answer(hit),
        judged(one, hit, touching_one),
        judged(other, hit, touching_other),
        ids_distinct(one),
        ids_distinct(other),
        0 <= i < j < one.len(),
        0 <= k < l < other.len(),
        (other[k] == one[i] && other[l] == one[j]) || (other[k] == one[j] && other[l] == one[i]),
    ensures
        contacts(one, touching_one).contains(contact(one[i], one[j])) <==> contacts(
            other,
            touching_other,
        ).contains(contact(other[k], other[l])),
{
    lemma_eligible_symmetric(one[i], one[j]);
    // Whether each list has the notice is whether its pair is eligible and
    // touches.
    lemma_notice_is_verdict(one, touching_one, i, j);
    lemma_notice_is_verdict(other, touching_other, k, l);
    if eligible(one[i], one[j]) {
        let x = one[i].body();
        let y = one[j].body();
        let found_one = touching_one.contains((i, j));
        let found_other = touching_other.contains((k, l));
        assert(hit.ensures((&x, &y), found_one));
        if other[k] == one[i] {
            assert(hit.ensures((&x, &y), found_other));
        } else {
            assert(hit.ensures((&y, &x), found_other));
            assert(hit.ensures((&x, &y), found_other));
        }
        assert(found_one == found_other);
    }
}

/// Among objects with distinct identifiers, the pair at positions `i < j`
/// has its notice among the notices exactly if it is eligible and touches.
pub proof fn lemma_notice_is_verdict<B>(
    objects: Seq<Entity<B>>,
    touching: Set<(int, int)>,
    i: int,
    j: int,
)
    requires
        ids_distinct(objects),
        0 <= i < j < objects.len(),
    ensures
        contacts(objects, touching).contains(contact(objects[i], objects[j])) <==> eligible(
            objects[i],
            objects[j],
        ) && touching.contains((i, j)),
{
    let event = contact(objects[i], objects[j]);
    if eligible(objects[i], objects[j]) && touching.contains((i, j)) {
        lemma_contact_reported(objects, touching, i, j);
    }
    if contacts(objects, touching).contains(event) {
        lemma_reported_contact(objects, touching, event);
        let (a, b) = choose|a: int, b: int| #[trigger] reports(objects, touching, event, a, b);
        assert(objects[a].id() == objects[i].id());
        assert(objects[b].id() == objects[j].id());
        if a < i {
            assert(objects[a].id() != objects[i].id());
        }
        if i < a {
            assert(objects[i].id() != objects[a].id());
        }
        if b < j {
            assert(objects[b].id() != objects[j].id());
        }
        if j < b {
            assert(objects[j].id() != objects[b].id());
        }
    }
}

/// Decides whether the pair is put to the geometric test.
fn is_eligible<B>(x: &Entity<B>, y: &Entity<B>) -> (yes: bool)
    ensures
        yes == eligible(*x, *y),
{
    x.get_entity_id() != y.get_entity_id() && x.can_collide() && y.can_collide() && layers_collide(
        x.get_collision_layer(),
        y.get_collision_layer(),
    )
}

/// Finds the touching pairs among the objects.
///
/// Every unordered pair of objects is looked at once. A pair of different
/// objects that both take part in collisions and whose layers may collide is
/// put to `hit`, which gets the two objects' numeric parts; no other pair is.
/// Each pair for which `hit` answers yes yields one notice, and the notices
/// come in the order of the pairs. The order of the list decides in which
/// order the notices come and which object a notice names first, not
/// whether a pair has one: [`lemma_verdict_order_independent`].
pub fn detect_collisions<B, F: Fn(&B, &B) -> bool>(objects: &Vec<Entity<B>>, hit: &F) -> (events:
    Vec<SceneEvent<B>>)
    requires
        forall|x: &B, y: &B| hit.requires((x, y)),
    ensures
        exists|touching: Set<(int, int)>|
            judged(objects@, *hit, touching) && events@ == contacts(objects@, touching),
{
    let n = objects.len();
    let mut events: Vec<SceneEvent<B>> = Vec::new();
    let ghost mut touching: Set<(int, int)> = Set::empty();
    let mut i: usize = 0;
    while i < n
        invariant
            n == objects@.len(),
            i <= n,
            forall|x: &B, y: &B| hit.requires((x, y)),
            forall|a: int, b: int|
                0 <= a < b < n && a < i && eligible(objects@[a], objects@[b])
                    ==> hit.ensures(
                    (&objects@[a].body(), &objects@[b].body()),
                    #[trigger] touching.contains((a, b)),
                ),
            events@ == contacts_upto(objects@, touching, i as int),
        decreases n - i,
    {
        let mut j: usize = i + 1;
        let ghost done = events@;
        while j < n
            invariant
                n == objects@.len(),
                i < n,
                i < j <= n,
                forall|x: &B, y: &B| hit.requires((x, y)),
                forall|a: int, b: int|
                    0 <= a < b < n && (a < i || (a == i && b < j)) && eligible(
                        objects@[a],
                        objects@[b],
                    ) ==> hit.ensures(
                        (&objects@[a].body(), &objects@[b].body()),
                        #[trigger] touching.contains((a, b)),
                    ),
                done == contacts_upto(objects@, touching, i as int),
                events@ == done + row_contacts(
                    objects@,
                    touching,
                    i as int,
                    j as int,
                ),
            decreases n - j,
        {
            let ghost before = touching;
            let mut touch = false;
            if is_eligible(&objects[i], &objects[j]) {
                match (objects[i].get_collision_mesh(), objects[j].get_collision_mesh()) {
                    (Some(x), Some(y)) => {
                        touch = hit(x, y);
                    },
                    _ => {},
                }
            }
            proof {
                if touch {
                    touching = touching.insert((i as int, j as int));
                } else {
                    touching = touching.remove((i as int, j as int));
                }
                lemma_rows_depend_on_visited(objects@, before, touching, i as int);
                lemma_row_depends_on_visited(objects@, before, touching, i as int, j as int);
            }
            if touch {
                events.push(
                    SceneEvent::Collision {
                        a: objects[i].get_entity_id(),
                        b: objects[j].get_entity_id(),
                        layer_a: objects[i].get_collision_layer(),
                        layer_b: objects[j].get_collision_layer(),
                    },
                );
            }
            assert(events@ =~= done + row_contacts(
                objects@,
                touching,
                i as int,
                j + 1,
            ));
            j += 1;
        }
        i += 1;
    }
    proof {
        assert(judged(objects@, *hit, touching));
        assert(events@ == contacts(objects@, touching));
    }
    events
}

/// Finds the touching pairs among the objects and tells each object of a
/// touching pair the layer of the other.
///
/// The notices are those of [`detect_collisions`]; they are delivered in
/// their order once all pairs have been looked at, and handed back.
pub fn solve_collision<B, F: Fn(&B, &B) -> bool>(scene: &mut Scene<B>, hit: &F) -> (events: Vec<
    SceneEvent<B>,
>)
    requires
        forall|x: &B, y: &B| hit.requires((x, y)),
    ensures
        exists|touching: Set<(int, int)>|
            judged(old(scene)@, *hit, touching) && events@ == contacts(old(scene)@, touching),
        final(scene)@ == delivered_all(old(scene)@, events@),
        same_ids(old(scene)@, final(scene)@),
{
    let events = detect_collisions(scene.get_entities(), hit);
    scene.apply_collisions(&events);
    events
}

} // verus!
