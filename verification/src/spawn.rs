//! The spawn plan: what materializing a bound level does, in order.
//!
//! Spawning mutates a live scene, which is the caller's business; the plan
//! computed here fixes every decision: the order of categories, which mesh
//! and collider a dynamic object gets, which button controls each door, and
//! whether dynamic objects are spawned at all on a respawn pass.

use crate::level::{DynamicObjectType, SerialButton, SerialLevel};
use crate::num::{Number, Vec3};
use vstd::prelude::*;

verus! {

/// The mesh a dynamic object is drawn with.
#[derive(Debug, Clone, Copy, PartialEq, Eq, Structural)]
pub enum MeshShape {
    Sphere { radius: Number },
    Cuboid { dimensions: Vec3 },
}

/// The collider a dynamic object falls and collides with.
#[derive(Debug, Clone, Copy, PartialEq, Eq, Structural)]
pub enum ColliderShape {
    Sphere { radius: Number },
    Cuboid { x: Number, y: Number, z: Number },
}

/// The mesh a dynamic-object type produces for given dimensions: a sphere
/// of the first component's radius, or a box of the full dimensions.
pub open spec fn spec_to_mesh(ty: DynamicObjectType, dimensions: Vec3) -> MeshShape {
    match ty {
        DynamicObjectType::Sphere => MeshShape::Sphere { radius: dimensions.x },
        DynamicObjectType::Cube => MeshShape::Cuboid { dimensions },
    }
}

/// The collider a dynamic-object type produces for given dimensions.
pub open spec fn spec_to_collider(ty: DynamicObjectType, dimensions: Vec3) -> ColliderShape {
    match ty {
        DynamicObjectType::Sphere => ColliderShape::Sphere { radius: dimensions.x },
        DynamicObjectType::Cube => ColliderShape::Cuboid {
            x: dimensions.x,
            y: dimensions.y,
            z: dimensions.z,
        },
    }
}

/// A mesh and a collider agree when they are the same kind of shape over
/// the same extents.
pub open spec fn spec_shapes_consistent(m: MeshShape, c: ColliderShape) -> bool {
    match (m, c) {
        (MeshShape::Sphere { radius: rm }, ColliderShape::Sphere { radius: rc }) => rm == rc,
        (
            MeshShape::Cuboid { dimensions },
            ColliderShape::Cuboid { x, y, z },
        ) => dimensions.x == x && dimensions.y == y && dimensions.z == z,
        _ => false,
    }
}

/// The mesh and the collider of a dynamic-object type always agree: a
/// sphere never gets a box collider and a cube never gets a sphere, and
/// both cover the same extents.
pub proof fn lemma_mesh_collider_consistent(ty: DynamicObjectType, dimensions: Vec3)
    ensures
        spec_shapes_consistent(spec_to_mesh(ty, dimensions), spec_to_collider(ty, dimensions)),
{
}

impl DynamicObjectType {
    /// The mesh this object type is drawn with.
    pub fn to_mesh(self, dimensions: Vec3) -> (m: MeshShape)
        ensures
            m == spec_to_mesh(self, dimensions),
    {
        match self {
            DynamicObjectType::Sphere => MeshShape::Sphere { radius: dimensions.x },
            DynamicObjectType::Cube => MeshShape::Cuboid { dimensions },
        }
    }

    /// The collider this object type collides with: a cube gets a box
    /// collider with exactly its bound dimensions, a sphere a sphere
    /// collider of the first component.
    pub fn to_collider(self, dimensions: Vec3) -> (c: ColliderShape)
        ensures
            c == spec_to_collider(self, dimensions),
    {
        match self {
            DynamicObjectType::Sphere => ColliderShape::Sphere { radius: dimensions.x },
            DynamicObjectType::Cube => ColliderShape::Cuboid {
                x: dimensions.x,
                y: dimensions.y,
                z: dimensions.z,
            },
        }
    }
}

/// One step of the spawn plan.  Indices point into the corresponding list
/// of the bound level; a door step names the button that controls it, if
/// any.
#[derive(Debug, Clone, Copy, PartialEq, Eq, Structural)]
pub enum SpawnStep {
    SpawnPoint,
    FinishPoint,
    DefaultMusic,
    TriggeredMusic(usize),
    Plane(usize),
    Cuboid(usize),
    Text(usize),
    Button(usize),
    ButtonDoor { index: usize, controlled_by: Option<usize> },
    DynamicObject(usize),
}

/// The button that ends up controlling a door of the given name: buttons
/// are recorded in order under their names, a later button of the same
/// name replacing an earlier one, so the last match wins.
pub open spec fn spec_button_for(buttons: Seq<SerialButton>, name: Seq<char>) -> Option<int>
    decreases buttons.len(),
{
    if buttons.len() == 0 {
        None
    } else if buttons.last().name@ == name {
        Some(buttons.len() - 1)
    } else {
        spec_button_for(buttons.drop_last(), name)
    }
}

/// A door whose name no button carries is controlled by nothing.
pub proof fn lemma_unmatched_name_uncontrolled(buttons: Seq<SerialButton>, name: Seq<char>)
    requires
        forall|j: int| 0 <= j < buttons.len() ==> (#[trigger] buttons[j]).name@ != name,
    ensures
        spec_button_for(buttons, name) is None,
    decreases buttons.len(),
{
    if buttons.len() > 0 {
        assert(buttons.last() == buttons[buttons.len() - 1]);
        lemma_unmatched_name_uncontrolled(buttons.drop_last(), name);
    }
}

/// A door referencing a button name that no button in the level carries
/// binds and spawns all the same: its step stands in the plan with no
/// controlling relationship.
pub proof fn lemma_unmatched_door_uncontrolled(level: SerialLevel, dyn_assets: bool, k: usize)
    requires
        k < level.button_doors@.len(),
        forall|j: int|
            0 <= j < level.buttons@.len() ==> (#[trigger] level.buttons@[j]).name@
                != level.button_doors@[k as int].name@,
    ensures
        exists|p: int|
            0 <= p < spec_spawn_plan(level, dyn_assets).len() && #[trigger] spec_spawn_plan(
                level,
                dyn_assets,
            )[p] == (SpawnStep::ButtonDoor { index: k, controlled_by: None }),
{
    lemma_unmatched_name_uncontrolled(level.buttons@, level.button_doors@[k as int].name@);
    let plan = spec_spawn_plan(level, dyn_assets);
    let lead = 2 + (if level.default_music is Some {
        1int
    } else {
        0int
    }) + level.triggered_music@.len() + level.planes@.len() + level.cuboids@.len()
        + level.texts@.len() + level.buttons@.len();
    assert(plan[lead + k] == (SpawnStep::ButtonDoor { index: k, controlled_by: None }));
    assert(0 <= lead + k < plan.len());
}

/// The index of the last button with the given name, if any.
fn button_for(buttons: &Vec<SerialButton>, name: &String) -> (r: Option<usize>)
    ensures
        match r {
            Some(i) => spec_button_for(buttons@, name@) == Some(i as int) && i < buttons@.len(),
            None => spec_button_for(buttons@, name@) is None,
        },
{
    let mut i: usize = buttons.len();
    proof {
        assert(buttons@.take(i as int) =~= buttons@);
    }
    while i > 0
        invariant
            i <= buttons@.len(),
            spec_button_for(buttons@, name@) == spec_button_for(buttons@.take(i as int), name@),
        decreases i,
    {
        i -= 1;
        proof {
            assert(buttons@.take(i + 1).last() == buttons@[i as int]);
            assert(buttons@.take(i + 1).drop_last() =~= buttons@.take(i as int));
        }
        if buttons[i].name == *name {
            return Some(i);
        }
    }
    None
}

/// The steps a level spawns in: spawn and finish points first, then the
/// default music, then the triggered-music zones, planes, cuboids and
/// texts, then the buttons (recording their names), then the doors looked
/// up against those names, then — only when the caller is not respawning
/// from a checkpoint — the dynamic objects.
pub open spec fn spec_spawn_plan(level: SerialLevel, dyn_assets: bool) -> Seq<SpawnStep> {
    seq![SpawnStep::SpawnPoint, SpawnStep::FinishPoint] + (if level.default_music is Some {
        seq![SpawnStep::DefaultMusic]
    } else {
        Seq::<SpawnStep>::empty()
    }) + Seq::new(level.triggered_music@.len(), |i: int| SpawnStep::TriggeredMusic(i as usize))
        + Seq::new(level.planes@.len(), |i: int| SpawnStep::Plane(i as usize)) + Seq::new(
        level.cuboids@.len(),
        |i: int| SpawnStep::Cuboid(i as usize),
    ) + Seq::new(level.texts@.len(), |i: int| SpawnStep::Text(i as usize)) + Seq::new(
        level.buttons@.len(),
        |i: int| SpawnStep::Button(i as usize),
    ) + Seq::new(
        level.button_doors@.len(),
        |i: int|
            SpawnStep::ButtonDoor {
                index: i as usize,
                controlled_by: match spec_button_for(
                    level.buttons@,
                    level.button_doors@[i].name@,
                ) {
                    Some(b) => Some(b as usize),
                    None => None,
                },
            },
    ) + (if dyn_assets {
        Seq::new(level.dynamic_objects@.len(), |i: int| SpawnStep::DynamicObject(i as usize))
    } else {
        Seq::<SpawnStep>::empty()
    })
}

impl SerialLevel {
    /// The ordered list of steps that materializes this level.
    ///
    /// `dyn_assets` is false on a respawn-from-checkpoint pass, where the
    /// dynamic objects already exist in the scene and are not spawned
    /// again.
    pub fn spawn_plan(&self, dyn_assets: bool) -> (plan: Vec<SpawnStep>)
        ensures
            plan@ == spec_spawn_plan(*self, dyn_assets),
    {
        let mut plan: Vec<SpawnStep> = Vec::new();
        plan.push(SpawnStep::SpawnPoint);
        plan.push(SpawnStep::FinishPoint);
        match &self.default_music {
            Some(_) => plan.push(SpawnStep::DefaultMusic),
            None => {},
        }
        let ghost base0 = plan@;
        let mut i: usize = 0;
        while i < self.triggered_music.len()
            invariant
                i <= self.triggered_music@.len(),
                plan@ =~= base0 + Seq::new(i as nat, |k: int| SpawnStep::TriggeredMusic(k as usize)),
            decreases self.triggered_music@.len() - i,
        {
            plan.push(SpawnStep::TriggeredMusic(i));
            i += 1;
        }
        let ghost base1 = plan@;
        let mut i: usize = 0;
        while i < self.planes.len()
            invariant
                i <= self.planes@.len(),
                plan@ =~= base1 + Seq::new(i as nat, |k: int| SpawnStep::Plane(k as usize)),
            decreases self.planes@.len() - i,
        {
            plan.push(SpawnStep::Plane(i));
            i += 1;
        }
        let ghost base2 = plan@;
        let mut i: usize = 0;
        while i < self.cuboids.len()
            invariant
                i <= self.cuboids@.len(),
                plan@ =~= base2 + Seq::new(i as nat, |k: int| SpawnStep::Cuboid(k as usize)),
            decreases self.cuboids@.len() - i,
        {
            plan.push(SpawnStep::Cuboid(i));
            i += 1;
        }
        let ghost base3 = plan@;
        let mut i: usize = 0;
        while i < self.texts.len()
            invariant
                i <= self.texts@.len(),
                plan@ =~= base3 + Seq::new(i as nat, |k: int| SpawnStep::Text(k as usize)),
            decreases self.texts@.len() - i,
        {
            plan.push(SpawnStep::Text(i));
            i += 1;
        }
        let ghost base4 = plan@;
        let mut i: usize = 0;
        while i < self.buttons.len()
            invariant
                i <= self.buttons@.len(),
                plan@ =~= base4 + Seq::new(i as nat, |k: int| SpawnStep::Button(k as usize)),
            decreases self.buttons@.len() - i,
        {
            plan.push(SpawnStep::Button(i));
            i += 1;
        }
        let ghost base5 = plan@;
        let ghost door_steps = Seq::new(
            self.button_doors@.len(),
            |k: int|
                SpawnStep::ButtonDoor {
                    index: k as usize,
                    controlled_by: match spec_button_for(
                        self.buttons@,
                        self.button_doors@[k].name@,
                    ) {
                        Some(b) => Some(b as usize),
                        None => None,
                    },
                },
        );
        let mut i: usize = 0;
        while i < self.button_doors.len()
            invariant
                i <= self.button_doors@.len(),
                door_steps == Seq::new(
                    self.button_doors@.len(),
                    |k: int|
                        SpawnStep::ButtonDoor {
                            index: k as usize,
                            controlled_by: match spec_button_for(
                                self.buttons@,
                                self.button_doors@[k].name@,
                            ) {
                                Some(b) => Some(b as usize),
                                None => None,
                            },
                        },
                ),
                plan@ =~= base5 + door_steps.take(i as int),
            decreases self.button_doors@.len() - i,
        {
            let controlled_by = button_for(&self.buttons, &self.button_doors[i].name);
            plan.push(SpawnStep::ButtonDoor { index: i, controlled_by });
            proof {
                assert(door_steps.take(i + 1) =~= door_steps.take(i as int).push(door_steps[i as int]));
            }
            i += 1;
        }
        proof {
            assert(door_steps.take(self.button_doors@.len() as int) =~= door_steps);
        }
        if dyn_assets {
            let ghost base6 = plan@;
            let mut i: usize = 0;
            while i < self.dynamic_objects.len()
                invariant
                    i <= self.dynamic_objects@.len(),
                    plan@ =~= base6 + Seq::new(
                        i as nat,
                        |k: int| SpawnStep::DynamicObject(k as usize),
                    ),
                decreases self.dynamic_objects@.len() - i,
            {
                plan.push(SpawnStep::DynamicObject(i));
                i += 1;
            }
        }
        proof {
            assert(plan@ =~= spec_spawn_plan(*self, dyn_assets));
        }
        plan
    }
}

} // verus!
