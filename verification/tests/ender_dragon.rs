use pumpkin::entity::{EnderDragonEntity, Entity, EntityKind};

#[test]
fn ender_dragon_wraps_its_entity() {
    let entity = Entity { entity_id: 7, entity_uuid: 0xabc, kind: EntityKind::EnderDragon };
    let dragon = EnderDragonEntity::new(entity);
    assert_eq!(dragon.get_mob_entity().entity, entity);
    assert_eq!(dragon.mob_entity.entity.entity_uuid, 0xabc);
}
