//! The two passes that run each frame over the registered surfaces: one
//! turns ray hits into cursor moves, the other hands mouse buttons on to
//! every surface.

use crate::mesh::hit_uv;
use crate::mesh::MeshHit;
use crate::mesh::UvMesh;
use crate::pointer::pointer_action;
use crate::pointer::pointer_action_of;
use crate::pointer::MouseButton;
use crate::pointer::MouseButtonInput;
use crate::pointer::PointerAction;
use crate::pointer::PointerInput;
use crate::surface::lemma_repeated_hit_is_silent;
use crate::surface::WorldSpaceUiSurface;
use crate::vector::vec2_differs;
use bevy::math::Vec2;
use vstd::prelude::*;

verus! {

/// One hit of a ray on a mesh: the entity that carries the mesh, where the
/// ray met it, and the mesh as it was then.
#[derive(Debug)]
pub struct SurfaceHit {
    pub entity: u64,
    pub hit: MeshHit,
    pub mesh: UvMesh,
}

/// A ray hit an entity that is not a registered surface.
#[derive(Clone, Copy, Debug, PartialEq, Eq, Structural)]
pub struct UnregisteredSurface {
    pub entity: u64,
}

/// No two surfaces belong to the same entity.
pub open spec fn distinct_entities(surfaces: Seq<WorldSpaceUiSurface>) -> bool {
    forall|i: int, j: int|
        0 <= i < j < surfaces.len() ==> (#[trigger] surfaces[i]).entity
            != (#[trigger] surfaces[j]).entity
}

/// Whether `slot` holds the surface of `entity`.
pub open spec fn holds(surfaces: Seq<WorldSpaceUiSurface>, slot: int, entity: u64) -> bool {
    0 <= slot < surfaces.len() && surfaces[slot].entity == entity
}

/// Whether `entity` has a surface among `surfaces`.
pub open spec fn registered(surfaces: Seq<WorldSpaceUiSurface>, entity: u64) -> bool {
    exists|slot: int| holds(surfaces, slot, entity)
}

/// The slot that holds the surface of `entity`, where it has one.
pub open spec fn slot_of(surfaces: Seq<WorldSpaceUiSurface>, entity: u64) -> int {
    choose|slot: int| holds(surfaces, slot, entity)
}

/// The surfaces after one hit on a registered surface. Where the mesh gives
/// the hit no texture coordinate, nothing changes. Else the hit surface
/// takes note of the pixel that the coordinate falls on; no other surface
/// changes.
pub open spec fn surfaces_after_hit(
    surfaces: Seq<WorldSpaceUiSurface>,
    hit: SurfaceHit,
) -> Seq<WorldSpaceUiSurface> {
    let slot = slot_of(surfaces, hit.entity);
    match hit_uv(hit.hit, hit.mesh) {
        Some(uv) => surfaces.update(
            slot,
            surfaces[slot].after_hit_at(surfaces[slot].pixel_position(uv)),
        ),
        None => surfaces,
    }
}

/// What one hit on a registered surface emits: the move of that surface's
/// cursor, if the hit has a texture coordinate and the cursor was not
/// already at its pixel; else nothing.
pub open spec fn events_of_hit(
    surfaces: Seq<WorldSpaceUiSurface>,
    hit: SurfaceHit,
) -> Seq<PointerInput> {
    let slot = slot_of(surfaces, hit.entity);
    match hit_uv(hit.hit, hit.mesh) {
        Some(uv) => match surfaces[slot].move_at(surfaces[slot].pixel_position(uv)) {
            Some(event) => seq![event],
            None => Seq::empty(),
        },
        None => Seq::empty(),
    }
}

/// How a pass over ray hits ends: the surfaces as it leaves them, the events
/// it has emitted, in order, and the failure that stopped it, if any.
pub struct PassOutcome {
    pub surfaces: Seq<WorldSpaceUiSurface>,
    pub events: Seq<PointerInput>,
    pub failure: Option<UnregisteredSurface>,
}

/// The outcome of taking `hits` in order, starting from `surfaces`. The
/// first hit on an entity without a surface stops the pass: what was done
/// before it stays done, and no later hit is looked at.
pub open spec fn drive_outcome(
    surfaces: Seq<WorldSpaceUiSurface>,
    hits: Seq<SurfaceHit>,
) -> PassOutcome
    decreases hits.len(),
{
    if hits.len() == 0 {
        PassOutcome { surfaces, events: Seq::empty(), failure: None }
    } else {
        let before = drive_outcome(surfaces, hits.drop_last());
        let hit = hits.last();
        if before.failure is Some {
            before
        } else if !registered(before.surfaces, hit.entity) {
            PassOutcome {
                surfaces: before.surfaces,
                events: before.events,
                failure: Some(UnregisteredSurface { entity: hit.entity }),
            }
        } else {
            PassOutcome {
                surfaces: surfaces_after_hit(before.surfaces, hit),
                events: before.events + events_of_hit(before.surfaces, hit),
                failure: None,
            }
        }
    }
}

/// Whether every hit that a pass from `surfaces` looks at can be placed on
/// its mesh.
pub open spec fn hits_placed(surfaces: Seq<WorldSpaceUiSurface>, hits: Seq<SurfaceHit>) -> bool {
    forall|k: int|
        0 <= k < hits.len()
            && drive_outcome(surfaces, hits.take(k)).failure is None
            && registered(surfaces, (#[trigger] hits[k]).entity)
            ==> hits[k].hit.placed_on(&hits[k].mesh)
}

/// What one button action emits: for each surface, in order, that action at
/// the surface's own cursor.
pub open spec fn broadcast(
    surfaces: Seq<WorldSpaceUiSurface>,
    action: PointerAction,
) -> Seq<PointerInput> {
    Seq::new(
        surfaces.len(),
        |slot: int| surfaces[slot].event_at(surfaces[slot].previous_cursor, action),
    )
}

/// What one button change emits: its pointer action on every surface, or
/// nothing where the button has no pointer button.
pub open spec fn events_of_input(
    surfaces: Seq<WorldSpaceUiSurface>,
    input: MouseButtonInput,
) -> Seq<PointerInput> {
    match pointer_action_of(input) {
        Some(action) => broadcast(surfaces, action),
        None => Seq::empty(),
    }
}

/// What a sequence of button changes emits, change by change.
pub open spec fn events_of_inputs(
    surfaces: Seq<WorldSpaceUiSurface>,
    inputs: Seq<MouseButtonInput>,
) -> Seq<PointerInput>
    decreases inputs.len(),
{
    if inputs.len() == 0 {
        Seq::empty()
    } else {
        events_of_inputs(surfaces, inputs.drop_last()) + events_of_input(surfaces, inputs.last())
    }
}

/// The registered surfaces, each with its cursor, in the order in which
/// they were registered. No two belong to the same entity.
pub struct WorldSpaceUiSurfaces {
    surfaces: Vec<WorldSpaceUiSurface>,
}

impl View for WorldSpaceUiSurfaces {
    type V = Seq<WorldSpaceUiSurface>;

    closed spec fn view(&self) -> Seq<WorldSpaceUiSurface> {
        self.surfaces@
    }
}

impl WorldSpaceUiSurfaces {
    /// What every collection of surfaces keeps to: an entity has one
    /// surface at most.
    pub open spec fn wf(&self) -> bool {
        distinct_entities(self@)
    }

    /// No surfaces.
    pub fn new() -> (surfaces: WorldSpaceUiSurfaces)
        ensures
            surfaces.wf(),
            surfaces@ == Seq::<WorldSpaceUiSurface>::empty(),
    {
        WorldSpaceUiSurfaces { surfaces: Vec::new() }
    }

    /// The number of surfaces.
    pub fn len(&self) -> (n: usize)
        ensures
            n == self@.len(),
    {
        self.surfaces.len()
    }

    /// The surface in `slot`.
    pub fn get(&self, slot: usize) -> (surface: &WorldSpaceUiSurface)
        requires
            slot < self@.len(),
        ensures
            *surface == self@[slot as int],
    {
        &self.surfaces[slot]
    }

    /// The slot that holds the surface of `entity`, if it has one.
    pub fn find(&self, entity: u64) -> (found: Option<usize>)
        requires
            self.wf(),
        ensures
            registered(self@, entity) <==> found is Some,
            found is Some ==> found->0 == slot_of(self@, entity) && holds(
                self@,
                found->0 as int,
                entity,
            ),
    {
        let mut slot: usize = 0;
        while slot < self.surfaces.len()
            invariant
                slot <= self.surfaces@.len(),
                distinct_entities(self.surfaces@),
                forall|k: int| 0 <= k < slot ==> !holds(self.surfaces@, k, entity),
            decreases self.surfaces@.len() - slot,
        {
            if self.surfaces[slot].entity == entity {
                assert(holds(self@, slot as int, entity));
                return Some(slot);
            }
            slot += 1;
        }
        None
    }

    /// Where the cursor of `entity`'s surface was last put, if the entity
    /// has a surface.
    pub fn cursor(&self, entity: u64) -> (cursor: Option<Vec2>)
        requires
            self.wf(),
        ensures
            registered(self@, entity) <==> cursor is Some,
            cursor is Some ==> cursor->0 == self@[slot_of(self@, entity)].previous_cursor,
    {
        match self.find(entity) {
            Some(slot) => Some(self.surfaces[slot].previous_cursor),
            None => None,
        }
    }

    /// Registers a surface. An entity has one surface at most: where the
    /// surface's entity already has one, nothing changes and `false` is
    /// returned.
    pub fn register(&mut self, surface: WorldSpaceUiSurface) -> (added: bool)
        requires
            old(self).wf(),
        ensures
            final(self).wf(),
            added == !registered(old(self)@, surface.entity),
            added ==> final(self)@ == old(self)@.push(surface),
            !added ==> final(self)@ == old(self)@,
    {
        if self.find(surface.entity).is_some() {
            return false;
        }
        proof {
            let grown = self.surfaces@.push(surface);
            assert forall|i: int, j: int| 0 <= i < j < grown.len() implies (#[trigger] grown[i]).entity
                != (#[trigger] grown[j]).entity by {
                if j == self.surfaces@.len() {
                    assert(!holds(self.surfaces@, i, surface.entity));
                }
            }
        }
        self.surfaces.push(surface);
        true
    }

    /// Tells whether a pass over `hits` meets only hits that can be placed
    /// on their meshes: see [`hits_placed`].
    pub fn places(&self, hits: &Vec<SurfaceHit>) -> (placed: bool)
        requires
            self.wf(),
        ensures
            placed == hits_placed(self@, hits@),
    {
        let mut taken: usize = 0;
        while taken < hits.len()
            invariant
                taken <= hits@.len(),
                self.wf(),
                forall|k: int| 0 <= k < taken ==> registered(self@, (#[trigger] hits@[k]).entity),
                forall|k: int| 0 <= k < taken ==> (#[trigger] hits@[k]).hit.placed_on(&hits@[k].mesh),
            decreases hits@.len() - taken,
        {
            if self.find(hits[taken].entity).is_none() {
                proof {
                    assert forall|k: int|
                        0 <= k < hits@.len()
                            && drive_outcome(self@, hits@.take(k)).failure is None
                            && registered(self@, (#[trigger] hits@[k]).entity)
                        implies hits@[k].hit.placed_on(&hits@[k].mesh) by {
                        if k > taken {
                            assert(hits@.take(k)[taken as int] == hits@[taken as int]);
                            lemma_unregistered_hit_fails(self@, hits@.take(k), taken as int);
                        }
                    }
                }
                return true;
            }
            if !hits[taken].hit.is_placed_on(&hits[taken].mesh) {
                proof {
                    let earlier = hits@.take(taken as int);
                    assert forall|k: int| 0 <= k < earlier.len() implies registered(
                        self@,
                        (#[trigger] earlier[k]).entity,
                    ) by {
                        assert(earlier[k] == hits@[k]);
                    }
                    lemma_registered_hits_pass(self@, earlier);
                    assert(!hits@[taken as int].hit.placed_on(&hits@[taken as int].mesh));
                }
                return false;
            }
            taken += 1;
        }
        true
    }

    /// Takes one ray hit. Where the hit entity has no surface, nothing
    /// changes and the failure is returned. Else the surface's cursor goes
    /// to the pixel that the hit falls on, and the move, if it is one, is
    /// appended to `pointer_input`.
    pub fn drive_hit(
        &mut self,
        hit: &SurfaceHit,
        pointer_input: &mut Vec<PointerInput>,
    ) -> (done: Result<(), UnregisteredSurface>)
        requires
            old(self).wf(),
            registered(old(self)@, hit.entity) ==> hit.hit.placed_on(&hit.mesh),
        ensures
            final(self).wf(),
            registered(old(self)@, hit.entity) ==> {
                &&& done is Ok
                &&& final(self)@ == surfaces_after_hit(old(self)@, *hit)
                &&& final(pointer_input)@ == old(pointer_input)@ + events_of_hit(old(self)@, *hit)
            },
            !registered(old(self)@, hit.entity) ==> {
                &&& done == Err::<(), UnregisteredSurface>(UnregisteredSurface { entity: hit.entity })
                &&& final(self)@ == old(self)@
                &&& final(pointer_input)@ == old(pointer_input)@
            },
    {
        let slot = match self.find(hit.entity) {
            Some(slot) => slot,
            None => {
                return Err(UnregisteredSurface { entity: hit.entity });
            },
        };
        let uv = match WorldSpaceUiSurface::get_ray_mesh_hit_uv(&hit.hit, &hit.mesh) {
            Some(uv) => uv,
            None => {
                assert(pointer_input@ == old(pointer_input)@ + Seq::<PointerInput>::empty());
                return Ok(());
            },
        };
        let ghost before = self.surfaces@;
        let event = self.surfaces[slot].move_cursor(uv);
        proof {
            assert(self.surfaces@ == before.update(slot as int, self.surfaces@[slot as int]));
        }
        match event {
            Some(event) => {
                pointer_input.push(event);
                assert(pointer_input@ == old(pointer_input)@ + seq![event]);
            },
            None => {
                assert(pointer_input@ == old(pointer_input)@ + Seq::<PointerInput>::empty());
            },
        }
        Ok(())
    }
}

/// Whether `after` holds the surfaces of `before`, slot by slot, with
/// nothing changed but, possibly, their cursors.
pub open spec fn same_but_cursors(
    before: Seq<WorldSpaceUiSurface>,
    after: Seq<WorldSpaceUiSurface>,
) -> bool {
    &&& after.len() == before.len()
    &&& forall|slot: int|
        0 <= slot < before.len() ==> {
            &&& (#[trigger] after[slot]).entity == before[slot].entity
            &&& after[slot].pointer_id == before[slot].pointer_id
            &&& after[slot].render_target == before[slot].render_target
        }
}

/// Surfaces that differ in their cursors only have the same entities
/// registered.
pub proof fn lemma_same_registered(
    before: Seq<WorldSpaceUiSurface>,
    after: Seq<WorldSpaceUiSurface>,
    entity: u64,
)
    requires
        same_but_cursors(before, after),
    ensures
        registered(after, entity) == registered(before, entity),
        distinct_entities(before) ==> distinct_entities(after),
{
    if registered(before, entity) {
        let slot = slot_of(before, entity);
        assert(holds(after, slot, entity));
    }
    if registered(after, entity) {
        let slot = slot_of(after, entity);
        assert(holds(before, slot, entity));
    }
    if distinct_entities(before) {
        assert forall|i: int, j: int| 0 <= i < j < after.len() implies (#[trigger] after[i]).entity
            != (#[trigger] after[j]).entity by {
            assert(before[i].entity != before[j].entity);
        }
    }
}

/// A hit on a registered surface changes nothing but cursors.
pub proof fn lemma_hit_keeps_surfaces(surfaces: Seq<WorldSpaceUiSurface>, hit: SurfaceHit)
    requires
        registered(surfaces, hit.entity),
    ensures
        same_but_cursors(surfaces, surfaces_after_hit(surfaces, hit)),
{
    let slot = slot_of(surfaces, hit.entity);
    assert(holds(surfaces, slot, hit.entity));
}

/// A pass over ray hits neither adds nor removes a surface, and changes
/// nothing of a surface but its cursor.
pub proof fn lemma_drive_keeps_surfaces(surfaces: Seq<WorldSpaceUiSurface>, hits: Seq<SurfaceHit>)
    ensures
        same_but_cursors(surfaces, drive_outcome(surfaces, hits).surfaces),
    decreases hits.len(),
{
    if hits.len() > 0 {
        lemma_drive_keeps_surfaces(surfaces, hits.drop_last());
        let before = drive_outcome(surfaces, hits.drop_last());
        if before.failure is None && registered(before.surfaces, hits.last().entity) {
            lemma_hit_keeps_surfaces(before.surfaces, hits.last());
        }
    }
}

/// A pass in which every hit is on a registered surface does not fail.
pub proof fn lemma_registered_hits_pass(surfaces: Seq<WorldSpaceUiSurface>, hits: Seq<SurfaceHit>)
    requires
        forall|k: int| 0 <= k < hits.len() ==> registered(surfaces, (#[trigger] hits[k]).entity),
    ensures
        drive_outcome(surfaces, hits).failure is None,
    decreases hits.len(),
{
    if hits.len() > 0 {
        let earlier = hits.drop_last();
        assert forall|k: int| 0 <= k < earlier.len() implies registered(
            surfaces,
            (#[trigger] earlier[k]).entity,
        ) by {
            assert(earlier[k] == hits[k]);
        }
        lemma_registered_hits_pass(surfaces, earlier);
        lemma_drive_keeps_surfaces(surfaces, earlier);
        assert(hits.last() == hits[hits.len() - 1]);
        lemma_same_registered(
            surfaces,
            drive_outcome(surfaces, earlier).surfaces,
            hits.last().entity,
        );
    }
}

/// A pass with a hit on an entity without a surface fails.
pub proof fn lemma_unregistered_hit_fails(
    surfaces: Seq<WorldSpaceUiSurface>,
    hits: Seq<SurfaceHit>,
    k: int,
)
    requires
        0 <= k < hits.len(),
        !registered(surfaces, hits[k].entity),
    ensures
        drive_outcome(surfaces, hits).failure is Some,
    decreases hits.len(),
{
    let earlier = hits.drop_last();
    if k < hits.len() - 1 {
        assert(earlier[k] == hits[k]);
        lemma_unregistered_hit_fails(surfaces, earlier, k);
    } else {
        lemma_drive_keeps_surfaces(surfaces, earlier);
        lemma_same_registered(
            surfaces,
            drive_outcome(surfaces, earlier).surfaces,
            hits.last().entity,
        );
    }
}

/// A pass fails on strangers only: it ends without failure if and only if
/// every one of its hits is on a registered surface.
pub proof fn lemma_pass_fails_on_strangers_only(
    surfaces: Seq<WorldSpaceUiSurface>,
    hits: Seq<SurfaceHit>,
)
    ensures
        drive_outcome(surfaces, hits).failure is None <==> forall|k: int|
            0 <= k < hits.len() ==> registered(surfaces, (#[trigger] hits[k]).entity),
{
    if forall|k: int| 0 <= k < hits.len() ==> registered(surfaces, (#[trigger] hits[k]).entity) {
        lemma_registered_hits_pass(surfaces, hits);
    } else {
        let k = choose|k: int| 0 <= k < hits.len() && !registered(surfaces, (#[trigger] hits[k]).entity);
        lemma_unregistered_hit_fails(surfaces, hits, k);
    }
}

/// Once a pass has failed, it has ended: the hits after the failure change
/// nothing of its outcome.
pub proof fn lemma_failure_ends_pass(
    surfaces: Seq<WorldSpaceUiSurface>,
    hits: Seq<SurfaceHit>,
    taken: int,
)
    requires
        0 <= taken <= hits.len(),
        drive_outcome(surfaces, hits.take(taken)).failure is Some,
    ensures
        drive_outcome(surfaces, hits) == drive_outcome(surfaces, hits.take(taken)),
    decreases hits.len(),
{
    if taken == hits.len() {
        assert(hits.take(taken) == hits);
    } else {
        assert(hits.drop_last().take(taken) == hits.take(taken));
        lemma_failure_ends_pass(surfaces, hits.drop_last(), taken);
    }
}

/// Takes the ray hits of one frame, in order: see [`drive_outcome`]. Each
/// hit on a registered surface puts that surface's cursor on the pixel
/// that the hit falls on and appends the move, if it is one, to
/// `pointer_input`. The first hit on an entity without a surface ends the
/// pass with that failure.
pub fn drive_diegetic_pointer(
    surfaces: &mut WorldSpaceUiSurfaces,
    hits: &Vec<SurfaceHit>,
    pointer_input: &mut Vec<PointerInput>,
) -> (done: Result<(), UnregisteredSurface>)
    requires
        old(surfaces).wf(),
        hits_placed(old(surfaces)@, hits@),
    ensures
        final(surfaces).wf(),
        final(surfaces)@ == drive_outcome(old(surfaces)@, hits@).surfaces,
        final(pointer_input)@ == old(pointer_input)@ + drive_outcome(old(surfaces)@, hits@).events,
        done == match drive_outcome(old(surfaces)@, hits@).failure {
            Some(failure) => Err::<(), UnregisteredSurface>(failure),
            None => Ok::<(), UnregisteredSurface>(()),
        },
        done is Ok <==> forall|k: int|
            0 <= k < hits@.len() ==> registered(old(surfaces)@, (#[trigger] hits@[k]).entity),
{
    proof {
        lemma_pass_fails_on_strangers_only(old(surfaces)@, hits@);
    }
    let mut taken: usize = 0;
    assert(pointer_input@ == old(pointer_input)@ + Seq::<PointerInput>::empty());
    while taken < hits.len()
        invariant
            taken <= hits@.len(),
            surfaces.wf(),
            hits_placed(old(surfaces)@, hits@),
            drive_outcome(old(surfaces)@, hits@.take(taken as int)).failure is None,
            surfaces@ == drive_outcome(old(surfaces)@, hits@.take(taken as int)).surfaces,
            pointer_input@ == old(pointer_input)@ + drive_outcome(
                old(surfaces)@,
                hits@.take(taken as int),
            ).events,
        decreases hits@.len() - taken,
    {
        proof {
            assert(hits@.take(taken + 1).drop_last() == hits@.take(taken as int));
            assert(hits@.take(taken + 1).last() == hits@[taken as int]);
            lemma_drive_keeps_surfaces(old(surfaces)@, hits@.take(taken as int));
            lemma_same_registered(old(surfaces)@, surfaces@, hits@[taken as int].entity);
        }
        let done = surfaces.drive_hit(&hits[taken], pointer_input);
        if let Err(failure) = done {
            proof {
                lemma_failure_ends_pass(old(surfaces)@, hits@, taken + 1);
            }
            return Err(failure);
        }
        taken += 1;
    }
    assert(hits@.take(taken as int) == hits@);
    Ok(())
}

/// Hands the mouse-button changes of one frame on, in order: see
/// [`events_of_inputs`]. Each change of the left, right or middle button is
/// appended to `pointer_input` once for every surface, as a press or a
/// release at that surface's own cursor. No surface changes.
pub fn send_pointer_input(
    surfaces: &WorldSpaceUiSurfaces,
    inputs: &Vec<MouseButtonInput>,
    pointer_input: &mut Vec<PointerInput>,
)
    ensures
        final(pointer_input)@ == old(pointer_input)@ + events_of_inputs(surfaces@, inputs@),
{
    let mut taken: usize = 0;
    assert(pointer_input@ == old(pointer_input)@ + Seq::<PointerInput>::empty());
    while taken < inputs.len()
        invariant
            taken <= inputs@.len(),
            pointer_input@ == old(pointer_input)@ + events_of_inputs(
                surfaces@,
                inputs@.take(taken as int),
            ),
        decreases inputs@.len() - taken,
    {
        proof {
            assert(inputs@.take(taken + 1).drop_last() == inputs@.take(taken as int));
            assert(inputs@.take(taken + 1).last() == inputs@[taken as int]);
        }
        let ghost sent = pointer_input@;
        if let Some(action) = pointer_action(inputs[taken]) {
            let mut slot: usize = 0;
            while slot < surfaces.len()
                invariant
                    slot <= surfaces@.len(),
                    pointer_input@ == sent + broadcast(surfaces@, action).take(slot as int),
                decreases surfaces@.len() - slot,
            {
                let event = surfaces.get(slot).event_at_cursor(action);
                pointer_input.push(event);
                assert(broadcast(surfaces@, action).take(slot + 1) == broadcast(
                    surfaces@,
                    action,
                ).take(slot as int).push(event));
                slot += 1;
            }
            assert(broadcast(surfaces@, action).take(slot as int) == broadcast(surfaces@, action));
        } else {
            assert(pointer_input@ == sent + Seq::<PointerInput>::empty());
        }
        taken += 1;
    }
    assert(inputs@.take(taken as int) == inputs@);
}

/// The pixel that a hit falls on, on the surface of its entity, if the mesh
/// gives the hit a texture coordinate.
pub open spec fn hit_position(surfaces: Seq<WorldSpaceUiSurface>, hit: SurfaceHit) -> Option<Vec2> {
    match hit_uv(hit.hit, hit.mesh) {
        Some(uv) => Some(surfaces[slot_of(surfaces, hit.entity)].pixel_position(uv)),
        None => None,
    }
}

/// Among surfaces of distinct entities, the slot of an entity is the only
/// one that holds it.
pub proof fn lemma_slot_is_unique(surfaces: Seq<WorldSpaceUiSurface>, slot: int, entity: u64)
    requires
        distinct_entities(surfaces),
        holds(surfaces, slot, entity),
    ensures
        slot_of(surfaces, entity) == slot,
{
    let chosen = slot_of(surfaces, entity);
    assert(holds(surfaces, chosen, entity));
    if chosen < slot {
        assert(surfaces[chosen].entity != surfaces[slot].entity);
    } else if slot < chosen {
        assert(surfaces[slot].entity != surfaces[chosen].entity);
    }
}

/// A hit on a mesh without texture coordinates is no hit: it changes no
/// surface and emits nothing.
pub proof fn lemma_hit_without_uv_is_ignored(surfaces: Seq<WorldSpaceUiSurface>, hit: SurfaceHit)
    requires
        hit.mesh.uvs is None,
    ensures
        surfaces_after_hit(surfaces, hit) == surfaces,
        events_of_hit(surfaces, hit) == Seq::<PointerInput>::empty(),
{
}

/// The same hit twice moves the cursor once: after a hit on a registered
/// surface, a second hit that falls on the same pixel emits nothing and
/// changes nothing. The pixel must not differ from itself, which leaves out
/// a position with a NaN in it.
pub proof fn lemma_repeated_hit_emits_nothing(surfaces: Seq<WorldSpaceUiSurface>, hit: SurfaceHit)
    requires
        distinct_entities(surfaces),
        registered(surfaces, hit.entity),
        hit_position(surfaces, hit) is Some ==> !vec2_differs(
            hit_position(surfaces, hit)->0,
            hit_position(surfaces, hit)->0,
        ),
    ensures
        events_of_hit(surfaces_after_hit(surfaces, hit), hit) == Seq::<PointerInput>::empty(),
        surfaces_after_hit(surfaces_after_hit(surfaces, hit), hit) == surfaces_after_hit(
            surfaces,
            hit,
        ),
{
    let slot = slot_of(surfaces, hit.entity);
    let after = surfaces_after_hit(surfaces, hit);
    assert(holds(surfaces, slot, hit.entity));
    lemma_hit_keeps_surfaces(surfaces, hit);
    lemma_same_registered(surfaces, after, hit.entity);
    assert(holds(after, slot, hit.entity));
    lemma_slot_is_unique(after, slot, hit.entity);
    if hit_uv(hit.hit, hit.mesh) is Some {
        let uv = hit_uv(hit.hit, hit.mesh)->0;
        let position = surfaces[slot].pixel_position(uv);
        assert(after[slot] == surfaces[slot].after_hit_at(position));
        assert(after[slot].pixel_position(uv) == position);
        lemma_repeated_hit_is_silent(surfaces[slot], position);
        assert(surfaces_after_hit(after, hit) =~= after);
    }
}

/// Surfaces keep to themselves: a hit on one surface leaves every other
/// surface as it was, cursor included, and what it emits bears the hit
/// surface's own pointer and render target.
pub proof fn lemma_hit_leaves_other_surfaces(
    surfaces: Seq<WorldSpaceUiSurface>,
    hit: SurfaceHit,
    other: int,
)
    requires
        distinct_entities(surfaces),
        registered(surfaces, hit.entity),
        0 <= other < surfaces.len(),
        surfaces[other].entity != hit.entity,
    ensures
        surfaces_after_hit(surfaces, hit)[other] == surfaces[other],
        forall|k: int|
            0 <= k < events_of_hit(surfaces, hit).len() ==> {
                let event = #[trigger] events_of_hit(surfaces, hit)[k];
                let target = surfaces[slot_of(surfaces, hit.entity)];
                event.pointer_id == target.pointer_id && event.location.target
                    == target.render_target.target
            },
{
    let slot = slot_of(surfaces, hit.entity);
    assert(holds(surfaces, slot, hit.entity));
}

/// A pass leaves alone what it does not hit: a surface whose entity none of
/// the hits names is, after the pass, as it was before.
pub proof fn lemma_pass_leaves_unhit_surfaces(
    surfaces: Seq<WorldSpaceUiSurface>,
    hits: Seq<SurfaceHit>,
    other: int,
)
    requires
        distinct_entities(surfaces),
        0 <= other < surfaces.len(),
        forall|k: int| 0 <= k < hits.len() ==> (#[trigger] hits[k]).entity != surfaces[other].entity,
    ensures
        drive_outcome(surfaces, hits).surfaces.len() == surfaces.len(),
        drive_outcome(surfaces, hits).surfaces[other] == surfaces[other],
    decreases hits.len(),
{
    lemma_drive_keeps_surfaces(surfaces, hits);
    if hits.len() > 0 {
        let earlier = hits.drop_last();
        assert forall|k: int| 0 <= k < earlier.len() implies (#[trigger] earlier[k]).entity
            != surfaces[other].entity by {
            assert(earlier[k] == hits[k]);
        }
        lemma_pass_leaves_unhit_surfaces(surfaces, earlier, other);
        lemma_drive_keeps_surfaces(surfaces, earlier);
        let before = drive_outcome(surfaces, earlier);
        if before.failure is None && registered(before.surfaces, hits.last().entity) {
            lemma_same_registered(surfaces, before.surfaces, hits.last().entity);
            assert(before.surfaces[other].entity == surfaces[other].entity);
            assert(hits.last() == hits[hits.len() - 1]);
            lemma_hit_leaves_other_surfaces(before.surfaces, hits.last(), other);
        }
    }
}

/// A button reaches every surface, each at its own cursor: a change of a
/// button that has a pointer button emits one event per surface, in the
/// order of the surfaces, and the event of a surface bears that surface's
/// pointer, that surface's render target and that surface's cursor.
pub proof fn lemma_button_reaches_every_surface(
    surfaces: Seq<WorldSpaceUiSurface>,
    input: MouseButtonInput,
)
    requires
        pointer_action_of(input) is Some,
    ensures
        events_of_input(surfaces, input).len() == surfaces.len(),
        forall|slot: int|
            0 <= slot < surfaces.len() ==> {
                let event = #[trigger] events_of_input(surfaces, input)[slot];
                &&& event.pointer_id == surfaces[slot].pointer_id
                &&& event.location.target == surfaces[slot].render_target.target
                &&& event.location.position == surfaces[slot].previous_cursor
                &&& event.action == pointer_action_of(input)->0
            },
{
}

/// A button that has no pointer button reaches no surface.
pub proof fn lemma_other_buttons_are_ignored(surfaces: Seq<WorldSpaceUiSurface>, input: MouseButtonInput)
    requires
        input.button != MouseButton::Left,
        input.button != MouseButton::Right,
        input.button != MouseButton::Middle,
    ensures
        events_of_input(surfaces, input) == Seq::<PointerInput>::empty(),
{
}

} // verus!
