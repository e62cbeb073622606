use EntityArgumentType::{Entities, Entity, Player, Players};
use pumpkin::entity_argument::{
    CommandErrorType, CommandSyntaxError, EntityArgumentError, EntityArgumentType, EntitySelector,
    JavaClientArgumentType, StringReader,
};

fn reader() -> StringReader {
    StringReader { string: "@e[type=creeper]".to_string(), cursor: 16 }
}

fn selector(max_selected: usize, includes_entities: bool, is_current_entity: bool) -> EntitySelector {
    EntitySelector { max_selected, includes_entities, is_current_entity }
}

fn kind(r: Result<EntitySelector, CommandSyntaxError>) -> Option<EntityArgumentError> {
    match r {
        Err(CommandSyntaxError { error_type: CommandErrorType::Entity(k), .. }) => Some(k),
        _ => None,
    }
}

#[test]
fn single_and_players_only_flags() {
    assert!(Entity.is_single() && Player.is_single());
    assert!(!Entities.is_single() && !Players.is_single());
    assert!(Player.is_players_only() && Players.is_players_only());
    assert!(!Entity.is_players_only() && !Entities.is_players_only());
    assert_eq!(Entity.client_side_parser(), JavaClientArgumentType::Entity { flags: 1 });
    assert_eq!(Entities.client_side_parser(), JavaClientArgumentType::Entity { flags: 0 });
    assert_eq!(Player.client_side_parser(), JavaClientArgumentType::Entity { flags: 3 });
    assert_eq!(Players.client_side_parser(), JavaClientArgumentType::Entity { flags: 2 });
}

#[test]
fn examples_are_listed() {
    assert_eq!(
        EntityArgumentType::Players.examples(),
        vec!["Herobrine", "98765", "@a", "@p[limit=2]", "@e[type=creeper]", "5e5677dc-bb96-4669-a4ab-60468b574e8e"]
    );
}

#[test]
fn too_many_targets() {
    let mut r = reader();
    let e = EntityArgumentType::Player.parse_with_allow_selectors(&mut r, Ok(selector(2, false, false)));
    assert_eq!(r.cursor, 0);
    match e {
        Err(err) => {
            assert!(matches!(err.error_type, CommandErrorType::Entity(EntityArgumentError::NotSinglePlayer)));
            assert_eq!(err.input, "@e[type=creeper]");
            assert_eq!(err.cursor, 0);
        }
        Ok(_) => panic!("expected an error"),
    }
    let mut r = reader();
    assert_eq!(
        kind(EntityArgumentType::Entity.parse_with_allow_selectors(&mut r, Ok(selector(5, true, false)))),
        Some(EntityArgumentError::NotSingleEntity)
    );
}

#[test]
fn only_players_allowed() {
    let mut r = reader();
    assert_eq!(
        kind(EntityArgumentType::Players.parse_with_allow_selectors(&mut r, Ok(selector(10, true, false)))),
        Some(EntityArgumentError::OnlyPlayersAllowed)
    );
    assert_eq!(r.cursor, 0);
    // `@s` passes even if it may be a non-player.
    let mut r = reader();
    let s = selector(1, true, true);
    assert_eq!(EntityArgumentType::Players.parse_with_allow_selectors(&mut r, Ok(s)).ok(), Some(s));
    assert_eq!(r.cursor, 16);
}

#[test]
fn accepted_and_passed_through() {
    let mut r = reader();
    let s = selector(usize::MAX, true, false);
    assert_eq!(EntityArgumentType::Entities.parse_with_allow_selectors(&mut r, Ok(s)).ok(), Some(s));
    let mut r = reader();
    let parse_error = CommandSyntaxError {
        error_type: CommandErrorType::Selector("argument.entity.invalid".to_string()),
        input: "@x".to_string(),
        cursor: 1,
    };
    match EntityArgumentType::Player.parse_with_allow_selectors(&mut r, Err(parse_error)) {
        Err(CommandSyntaxError { error_type: CommandErrorType::Selector(k), cursor: 1, .. }) => {
            assert_eq!(k, "argument.entity.invalid")
        }
        _ => panic!("the parse error is handed on"),
    }
    assert_eq!(r.cursor, 16);
}

#[test]
fn translation_keys() {
    assert_eq!(EntityArgumentError::NoEntities.translation_key(), "argument.entity.notfound.entity");
    assert_eq!(EntityArgumentError::NoPlayers.translation_key(), "argument.entity.notfound.player");
    assert_eq!(EntityArgumentError::OnlyPlayersAllowed.translation_key(), "argument.player.entities");
    assert_eq!(EntityArgumentError::NotSingleEntity.translation_key(), "argument.entity.toomany");
    assert_eq!(EntityArgumentError::NotSinglePlayer.translation_key(), "argument.player.toomany");
}
