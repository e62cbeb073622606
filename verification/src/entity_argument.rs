use vstd::prelude::*;
use vstd::string::StringExecFns;

verus! {

/// The errors of entity arguments.
#[derive(Debug, Clone, Copy, PartialEq, Eq, Structural)]
pub enum EntityArgumentError {
    /// No entities could be found.
    NoEntities,
    /// No players could be found.
    NoPlayers,
    /// Only players are allowed for an entity selector.
    OnlyPlayersAllowed,
    /// Only 1 entity is allowed for an entity selector.
    NotSingleEntity,
    /// Only 1 player is allowed for an entity selector.
    NotSinglePlayer,
}

impl EntityArgumentError {
    /// The translation key of the message of this error.
    pub fn translation_key(&self) -> (k: &'static str)
        ensures
            k@ == match *self {
                EntityArgumentError::NoEntities => "argument.entity.notfound.entity"@,
                EntityArgumentError::NoPlayers => "argument.entity.notfound.player"@,
                EntityArgumentError::OnlyPlayersAllowed => "argument.player.entities"@,
                EntityArgumentError::NotSingleEntity => "argument.entity.toomany"@,
                EntityArgumentError::NotSinglePlayer => "argument.player.toomany"@,
            },
    {
        match self {
            EntityArgumentError::NoEntities => "argument.entity.notfound.entity",
            EntityArgumentError::NoPlayers => "argument.entity.notfound.player",
            EntityArgumentError::OnlyPlayersAllowed => "argument.player.entities",
            EntityArgumentError::NotSingleEntity => "argument.entity.toomany",
            EntityArgumentError::NotSinglePlayer => "argument.player.toomany",
        }
    }
}

/// The kind of a command syntax error: one of the entity argument errors, or
/// an error of the selector parser with its translation key.
pub enum CommandErrorType {
    Entity(EntityArgumentError),
    Selector(String),
}

/// A command syntax error, with the command input and the cursor position it
/// was raised at.
pub struct CommandSyntaxError {
    pub error_type: CommandErrorType,
    pub input: String,
    pub cursor: usize,
}

/// A cursor over a command's input.
pub struct StringReader {
    pub string: String,
    pub cursor: usize,
}

impl StringReader {
    pub fn set_cursor(&mut self, cursor: usize)
        ensures
            final(self).string == old(self).string,
            final(self).cursor == cursor,
    {
        self.cursor = cursor;
    }
}

/// What the entity argument checks of a parsed entity selector.
#[derive(Debug, Clone, Copy, PartialEq, Eq, Structural)]
pub struct EntitySelector {
    /// The most entities the selector may select.
    pub max_selected: usize,
    /// Whether the selector can select entities that are not players.
    pub includes_entities: bool,
    /// Whether the selector is `@s`.
    pub is_current_entity: bool,
}

/// What the client is told about an argument, to parse it on its side.
#[derive(Debug, Clone, Copy, PartialEq, Eq, Structural)]
pub enum JavaClientArgumentType {
    Entity { flags: u8 },
}

/// The client flag: only one entity may be selected.
pub const ENTITY_FLAG_ONLY_SINGLE: u8 = 1;

/// The client flag: only players may be selected.
pub const ENTITY_FLAG_PLAYERS_ONLY: u8 = 2;

/// Represents an argument type parsing a target selector. This argument type
/// is used to target entities.
#[derive(Debug, Clone, Copy, PartialEq, Eq, Hash, Structural)]
pub enum EntityArgumentType {
    Entity,
    Entities,
    Player,
    Players,
}

impl EntityArgumentType {
    pub open spec fn spec_is_single(self) -> bool {
        self is Entity || self is Player
    }

    pub open spec fn spec_is_players_only(self) -> bool {
        self is Player || self is Players
    }

    /// Whether at most one entity may be selected.
    pub fn is_single(self) -> (b: bool)
        ensures
            b == self.spec_is_single(),
    {
        matches!(self, Self::Entity | Self::Player)
    }

    /// Whether only players may be selected.
    pub fn is_players_only(self) -> (b: bool)
        ensures
            b == self.spec_is_players_only(),
    {
        matches!(self, Self::Player | Self::Players)
    }

    /// The argument as the client parses it: the single flag and the
    /// players-only flag.
    pub fn client_side_parser(&self) -> (r: JavaClientArgumentType)
        ensures
            r == (JavaClientArgumentType::Entity {
                flags: ((if self.spec_is_single() {
                    ENTITY_FLAG_ONLY_SINGLE
                } else {
                    0u8
                }) + (if self.spec_is_players_only() {
                    ENTITY_FLAG_PLAYERS_ONLY
                } else {
                    0u8
                })) as u8,
            }),
    {
        let single = self.is_single() as u8;
        let players = self.is_players_only() as u8;
        let a = single * ENTITY_FLAG_ONLY_SINGLE;
        let b = players * ENTITY_FLAG_PLAYERS_ONLY;
        let flags = a | b;
        assert(a <= 1 && (b == 0 || b == 2) ==> a | b == a + b) by (bit_vector);
        JavaClientArgumentType::Entity { flags }
    }

    /// Examples of entity arguments.
    pub fn examples(&self) -> (r: Vec<String>)
        ensures
            r@.len() == 6,
            r@[0]@ == "Herobrine"@,
            r@[1]@ == "98765"@,
            r@[2]@ == "@a"@,
            r@[3]@ == "@p[limit=2]"@,
            r@[4]@ == "@e[type=creeper]"@,
            r@[5]@ == "5e5677dc-bb96-4669-a4ab-60468b574e8e"@,
    {
        let mut r: Vec<String> = Vec::new();
        r.push(String::from_str("Herobrine"));
        r.push(String::from_str("98765"));
        r.push(String::from_str("@a"));
        r.push(String::from_str("@p[limit=2]"));
        r.push(String::from_str("@e[type=creeper]"));
        r.push(String::from_str("5e5677dc-bb96-4669-a4ab-60468b574e8e"));
        r
    }

    /// The error that a parsed selector breaks for this argument, if any: too
    /// many targets for a single-target argument, else non-players for a
    /// players-only argument (which `@s` never counts as).
    pub open spec fn spec_violation(self, selector: EntitySelector) -> Option<EntityArgumentError> {
        if selector.max_selected > 1 && self.spec_is_single() {
            if self.spec_is_players_only() {
                Some(EntityArgumentError::NotSinglePlayer)
            } else {
                Some(EntityArgumentError::NotSingleEntity)
            }
        } else if selector.includes_entities && self.spec_is_players_only()
            && !selector.is_current_entity {
            Some(EntityArgumentError::OnlyPlayersAllowed)
        } else {
            None
        }
    }

    /// Checks the outcome of parsing an entity selector from `reader` (with
    /// selectors allowed or not, as the parser was told): a parse error is
    /// handed on; a selector that breaks this argument's limits becomes an
    /// error raised at the start of the input; else the selector is the
    /// argument's value.
    pub fn parse_with_allow_selectors(
        self,
        reader: &mut StringReader,
        parsed: Result<EntitySelector, CommandSyntaxError>,
    ) -> (r: Result<EntitySelector, CommandSyntaxError>)
        ensures
            match parsed {
                Err(e) => r == Err::<EntitySelector, CommandSyntaxError>(e) && *final(reader)
                    == *old(reader),
                Ok(selector) => match self.spec_violation(selector) {
                    None => r == Ok::<EntitySelector, CommandSyntaxError>(selector)
                        && *final(reader) == *old(reader),
                    Some(kind) => {
                        &&& final(reader).string == old(reader).string
                        &&& final(reader).cursor == 0
                        &&& r matches Err(e) && e.error_type == CommandErrorType::Entity(kind)
                            && e.input@ == old(reader).string@ && e.cursor == 0
                    },
                },
            },
    {
        let selector = match parsed {
            Ok(selector) => selector,
            Err(e) => return Err(e),
        };
        if selector.max_selected > 1 && self.is_single() {
            reader.set_cursor(0);
            let kind = if self.is_players_only() {
                EntityArgumentError::NotSinglePlayer
            } else {
                EntityArgumentError::NotSingleEntity
            };
            Err(CommandSyntaxError {
                error_type: CommandErrorType::Entity(kind),
                input: reader.string.clone(),
                cursor: reader.cursor,
            })
        } else if selector.includes_entities && self.is_players_only()
            && !selector.is_current_entity {
            reader.set_cursor(0);
            Err(CommandSyntaxError {
                error_type: CommandErrorType::Entity(EntityArgumentError::OnlyPlayersAllowed),
                input: reader.string.clone(),
                cursor: reader.cursor,
            })
        } else {
            Ok(selector)
        }
    }
}

/// A selector that an entity argument accepts keeps to the argument: at most
/// one target for a single-target argument, and no non-player targets (other
/// than `@s`) for a players-only argument.
pub proof fn lemma_accepted_selector_fits(argument: EntityArgumentType, selector: EntitySelector)
    requires
        argument.spec_violation(selector) is None,
    ensures
        argument.spec_is_single() ==> selector.max_selected <= 1,
        argument.spec_is_players_only() && selector.includes_entities
            ==> selector.is_current_entity,
{
}

/// An entity argument accepts a selector exactly when the selector keeps to
/// it: a single-target argument needs a selector of at most one target, and a
/// players-only argument needs a selector that selects only players, or `@s`.
/// A refusal for too many targets names players for a players-only argument
/// and entities otherwise.
pub proof fn lemma_selector_acceptance(argument: EntityArgumentType, selector: EntitySelector)
    ensures
        argument.spec_violation(selector) is None <==> {
            &&& (argument is Entity || argument is Player) ==> selector.max_selected <= 1
            &&& (argument is Player || argument is Players) && selector.includes_entities
                ==> selector.is_current_entity
        },
        argument.spec_violation(selector) == Some(EntityArgumentError::NotSinglePlayer) <==> (
        argument is Player && selector.max_selected > 1),
        argument.spec_violation(selector) == Some(EntityArgumentError::NotSingleEntity) <==> (
        argument is Entity && selector.max_selected > 1),
        !selector.includes_entities && (selector.max_selected <= 1 || argument is Entities
            || argument is Players) ==> argument.spec_violation(selector) is None,
{
}

/// The client is told flag 1 for a single-target argument and flag 2 for a
/// players-only argument.
pub proof fn lemma_client_flags(argument: EntityArgumentType)
    ensures
        argument is Entity ==> argument.spec_is_single() && !argument.spec_is_players_only(),
        argument is Entities ==> !argument.spec_is_single() && !argument.spec_is_players_only(),
        argument is Player ==> argument.spec_is_single() && argument.spec_is_players_only(),
        argument is Players ==> !argument.spec_is_single() && argument.spec_is_players_only(),
{
}

} // verus!
