//! Players and the body of a response that lists them.

use vstd::prelude::*;

verus! {

/// One row of the leaderboard.
#[derive(Debug, PartialEq, Eq)]
pub struct Player {
    pub id: i64,
    pub username: String,
    pub score: i64,
}

/// A player as a mathematical value.
pub ghost struct PlayerView {
    pub id: i64,
    pub username: Seq<char>,
    pub score: i64,
}

impl View for Player {
    type V = PlayerView;

    open spec fn view(&self) -> PlayerView {
        PlayerView { id: self.id, username: self.username@, score: self.score }
    }
}

/// The players as mathematical values, in order.
pub open spec fn players_view(players: Seq<Player>) -> Seq<PlayerView> {
    Seq::new(players.len(), |i: int| players[i]@)
}

/// The body of every response that carries JSON: a list of players.
#[derive(Debug, PartialEq, Eq)]
pub struct PlayersResponse {
    pub players: Vec<Player>,
}

impl View for PlayersResponse {
    type V = Seq<PlayerView>;

    open spec fn view(&self) -> Seq<PlayerView> {
        players_view(self.players@)
    }
}

impl Player {
    /// A player with the given fields.
    pub fn new(id: i64, username: String, score: i64) -> (player: Player)
        ensures
            player@ == (PlayerView { id, username: username@, score }),
    {
        Player { id, username, score }
    }
}

impl PlayersResponse {
    /// A response body that lists the given players.
    pub fn new(players: Vec<Player>) -> (response: PlayersResponse)
        ensures
            response@ == players_view(players@),
    {
        PlayersResponse { players }
    }

    /// A response body that lists no player.
    pub fn empty() -> (response: PlayersResponse)
        ensures
            response@ == Seq::<PlayerView>::empty(),
    {
        let response = PlayersResponse { players: Vec::new() };
        assert(response@ =~= Seq::<PlayerView>::empty());
        response
    }
}

} // verus!
