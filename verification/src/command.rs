//! The commands that clients send, and the events the hub announces in answer.

use vstd::prelude::*;

verus! {

/// The topic on which world events are announced.
pub const WORLD_EVENTS_TOPIC: &'static str = "world-events";

/// A command of the game, as a client sends it.
#[derive(Debug, PartialEq, Eq)]
pub enum GameCommand {
    CreateUnit { unit_id: String, position: (i32, i32) },
    MoveUnit { unit_id: String, destination: (i32, i32) },
}

/// Something that happened in the world, as the hub announces it.
#[derive(Debug, PartialEq, Eq)]
pub enum WorldEvent {
    PlayerJoined,
    PlayerLeft,
    UnitCreated { unit_id: String, position: (i32, i32) },
    UnitMoved { unit_id: String, destination: (i32, i32) },
}

/// A command together with the player who sent it.
#[derive(Debug, PartialEq, Eq)]
pub struct GameCommandRequest {
    pub player_id: String,
    pub game_command: GameCommand,
}

/// A world event together with the player who caused it.
#[derive(Debug, PartialEq, Eq)]
pub struct WorldEventResponse {
    pub player_id: String,
    pub world_event: WorldEvent,
}

/// A world event to be published, and the topic to publish it on.
#[derive(Debug, PartialEq, Eq)]
pub struct Announcement {
    pub topic: String,
    pub response: WorldEventResponse,
}

pub enum GameCommandView {
    CreateUnit { unit_id: Seq<char>, position: (i32, i32) },
    MoveUnit { unit_id: Seq<char>, destination: (i32, i32) },
}

pub enum WorldEventView {
    PlayerJoined,
    PlayerLeft,
    UnitCreated { unit_id: Seq<char>, position: (i32, i32) },
    UnitMoved { unit_id: Seq<char>, destination: (i32, i32) },
}

pub struct GameCommandRequestView {
    pub player_id: Seq<char>,
    pub game_command: GameCommandView,
}

pub struct WorldEventResponseView {
    pub player_id: Seq<char>,
    pub world_event: WorldEventView,
}

pub struct AnnouncementView {
    pub topic: Seq<char>,
    pub response: WorldEventResponseView,
}

impl View for GameCommand {
    type V = GameCommandView;

    open spec fn view(&self) -> GameCommandView {
        match *self {
            GameCommand::CreateUnit { unit_id, position } => GameCommandView::CreateUnit {
                unit_id: unit_id@,
                position,
            },
            GameCommand::MoveUnit { unit_id, destination } => GameCommandView::MoveUnit {
                unit_id: unit_id@,
                destination,
            },
        }
    }
}

impl View for WorldEvent {
    type V = WorldEventView;

    open spec fn view(&self) -> WorldEventView {
        match *self {
            WorldEvent::PlayerJoined => WorldEventView::PlayerJoined,
            WorldEvent::PlayerLeft => WorldEventView::PlayerLeft,
            WorldEvent::UnitCreated { unit_id, position } => WorldEventView::UnitCreated {
                unit_id: unit_id@,
                position,
            },
            WorldEvent::UnitMoved { unit_id, destination } => WorldEventView::UnitMoved {
                unit_id: unit_id@,
                destination,
            },
        }
    }
}

impl View for GameCommandRequest {
    type V = GameCommandRequestView;

    open spec fn view(&self) -> GameCommandRequestView {
        GameCommandRequestView { player_id: self.player_id@, game_command: self.game_command@ }
    }
}

impl View for WorldEventResponse {
    type V = WorldEventResponseView;

    open spec fn view(&self) -> WorldEventResponseView {
        WorldEventResponseView { player_id: self.player_id@, world_event: self.world_event@ }
    }
}

impl View for Announcement {
    type V = AnnouncementView;

    open spec fn view(&self) -> AnnouncementView {
        AnnouncementView { topic: self.topic@, response: self.response@ }
    }
}

/// What the hub announces in answer to a request: the creation of a unit is
/// announced on the world-events topic in the name of the player who asked
/// for it; a move is not announced.
pub open spec fn announcement_for(request: GameCommandRequestView) -> Option<AnnouncementView> {
    match request.game_command {
        GameCommandView::CreateUnit { unit_id, position } => Some(
            AnnouncementView {
                topic: WORLD_EVENTS_TOPIC@,
                response: WorldEventResponseView {
                    player_id: request.player_id,
                    world_event: WorldEventView::UnitCreated { unit_id, position },
                },
            },
        ),
        GameCommandView::MoveUnit { .. } => None,
    }
}

/// Interprets one request and returns what is to be announced, if anything.
pub fn handle_game_command(game_command_request: GameCommandRequest) -> (outcome: Option<Announcement>)
    ensures
        match outcome {
            Some(announcement) => announcement_for(game_command_request@) == Some(announcement@),
            None => announcement_for(game_command_request@) is None,
        },
{
    match game_command_request.game_command {
        GameCommand::CreateUnit { unit_id, position } => Some(
            Announcement {
                topic: WORLD_EVENTS_TOPIC.to_owned(),
                response: WorldEventResponse {
                    player_id: game_command_request.player_id,
                    world_event: WorldEvent::UnitCreated { unit_id, position },
                },
            },
        ),
        GameCommand::MoveUnit { .. } => None,
    }
}

} // verus!
