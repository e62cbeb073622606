use std::sync::Arc;
use vstd::prelude::*;

verus! {

/// The kinds of entities that the End fight tells apart.
#[derive(Debug, Clone, Copy, PartialEq, Eq, Structural)]
pub enum EntityKind {
    EnderDragon,
    EndCrystal,
    Other,
}

/// What identifies an entity in a world.
#[derive(Debug, Clone, Copy, PartialEq, Eq, Structural)]
pub struct Entity {
    pub entity_id: i32,
    pub entity_uuid: u128,
    pub kind: EntityKind,
}

/// An entity driven by mob behaviour.
pub struct MobEntity {
    pub entity: Entity,
}

impl MobEntity {
    pub fn new(entity: Entity) -> (m: MobEntity)
        ensures
            m.entity == entity,
    {
        MobEntity { entity }
    }
}

/// The ender dragon.
pub struct EnderDragonEntity {
    pub mob_entity: MobEntity,
}

impl EnderDragonEntity {
    /// A shared ender dragon made from `entity`.
    pub fn new(entity: Entity) -> (d: Arc<Self>)
        ensures
            d.mob_entity.entity == entity,
    {
        let mob_entity = MobEntity::new(entity);
        let dragon = Self { mob_entity };
        Arc::new(dragon)
    }

    pub fn get_mob_entity(&self) -> (m: &MobEntity)
        ensures
            *m == self.mob_entity,
    {
        &self.mob_entity
    }
}

} // verus!
