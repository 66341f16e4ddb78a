use vstd::prelude::*;

use uuid::Uuid;

use crate::board::Board;

verus! {

/// The server's answer to a created or joined game.
#[derive(Debug)]
pub struct CreateGameResponse {
    pub game_id: Uuid,
    pub message: String,
}

/// The server's answer to an authorization over the websocket.
#[derive(Debug)]
pub struct AuthorizeWebsocketConnectionResponse {
    pub message: String,
}

/// The server's answer to a move: the board after it.
#[derive(Debug)]
pub struct MakeMoveResponse {
    pub game_id: Uuid,
    pub message: String,
    pub columns: String,
    pub rows: String,
    pub board: Board,
}

/// The games that wait for an opponent.
#[derive(Debug)]
pub struct GetGamesResponse {
    pub game_ids: Vec<Uuid>,
}

/// The server's answer to a joined game.
#[derive(Debug)]
pub struct JoinGameResponse {
    pub game_id: Uuid,
    pub message: String,
}

/// The server's answer to a request that failed.
#[derive(Debug)]
pub struct RequestFailedResponse {
    pub message: String,
}

} // verus!
