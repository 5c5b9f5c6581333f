use crate::selector::{Selector, SelectorListener, SelectorView};
use crate::stream::readable_byte_channel::PollRead;
use crate::stream::{Close, Flush, Id, ReadError};
use vstd::prelude::*;

verus! {

/// The most players that can be online at once.
pub const MAX_PLAYERS: usize = 100;

/// The most games that can be open at once.
pub const MAX_GAMES: usize = 100;

/// Why no player could be created.
#[derive(Debug, Clone, Copy, PartialEq, Eq, Structural)]
pub enum CreatePlayerError {
    /// `MAX_PLAYERS` players are online already.
    ReachedMaxPlayers,
}

/// Why no game could be created.
#[derive(Debug, Clone, Copy, PartialEq, Eq, Structural)]
pub enum CreateGameError {
    /// `MAX_GAMES` games are open already.
    ReachedMaxAvailableGameCapacity,
}

/// A player: the game that the player has joined, if any, by its handle.
#[derive(Debug)]
pub struct Player {
    joined_game: Option<usize>,
}

/// A game: the players that were put into it, by their handles.
#[derive(Debug)]
pub struct Game {
    pub players: Vec<usize>,
}

/// What an [`App`] holds, as mathematics.
pub struct AppView {
    /// For each open game, the handles of its players.
    pub games: Seq<Seq<usize>>,
    /// For each online player, the handle of the game that was joined.
    pub players: Seq<Option<usize>>,
}

/// The games that are open and the players that are online. A game or a
/// player is known by its handle, which is its place in the list.
#[derive(Debug)]
pub struct App {
    pub available_games: Vec<Game>,
    pub online_players: Vec<Player>,
}

impl View for App {
    type V = AppView;

    closed spec fn view(&self) -> AppView {
        AppView {
            games: self.available_games@.map_values(|game: Game| game.players@),
            players: self.online_players@.map_values(|player: Player| player.joined_game),
        }
    }
}

impl App {
    /// No games and no players.
    pub fn new() -> (app: Self)
        ensures
            app@ == (AppView { games: Seq::empty(), players: Seq::empty() }),
    {
        let app = App { available_games: Vec::new(), online_players: Vec::new() };
        assert(app@.games =~= Seq::<Seq<usize>>::empty());
        assert(app@.players =~= Seq::<Option<usize>>::empty());
        app
    }

    /// Puts a new player online, who has joined no game, and returns the
    /// player's handle. When `MAX_PLAYERS` players or more are online this
    /// fails and changes nothing.
    pub fn create_player(&mut self) -> (result: Result<usize, CreatePlayerError>)
        ensures
            old(self)@.players.len() < MAX_PLAYERS ==> {
                &&& result == Ok::<usize, CreatePlayerError>(old(self)@.players.len() as usize)
                &&& final(self)@ == (AppView {
                    players: old(self)@.players.push(None),
                    ..old(self)@
                })
            },
            old(self)@.players.len() >= MAX_PLAYERS ==> {
                &&& result == Err::<usize, CreatePlayerError>(CreatePlayerError::ReachedMaxPlayers)
                &&& final(self)@ == old(self)@
            },
    {
        let player_index = self.online_players.len();
        if player_index >= MAX_PLAYERS {
            return Err(CreatePlayerError::ReachedMaxPlayers);
        }
        self.online_players.push(Player { joined_game: None });
        assert(self@.players =~= old(self)@.players.push(None));
        Ok(player_index)
    }

    /// Opens a new game without players and returns its handle. When
    /// `MAX_GAMES` games or more are open this fails and changes nothing.
    pub fn create_game(&mut self) -> (result: Result<usize, CreateGameError>)
        ensures
            old(self)@.games.len() < MAX_GAMES ==> {
                &&& result == Ok::<usize, CreateGameError>(old(self)@.games.len() as usize)
                &&& final(self)@ == (AppView {
                    games: old(self)@.games.push(Seq::empty()),
                    ..old(self)@
                })
            },
            old(self)@.games.len() >= MAX_GAMES ==> {
                &&& result == Err::<usize, CreateGameError>(
                    CreateGameError::ReachedMaxAvailableGameCapacity,
                )
                &&& final(self)@ == old(self)@
            },
    {
        let game_index = self.available_games.len();
        if game_index >= MAX_GAMES {
            return Err(CreateGameError::ReachedMaxAvailableGameCapacity);
        }
        self.available_games.push(Game { players: Vec::new() });
        assert(self@.games =~= old(self)@.games.push(Seq::empty()));
        Ok(game_index)
    }

    /// Notes that the player `player`, who must be online, has joined the
    /// game `game`.
    pub fn player_join_game(&mut self, player: usize, game: usize)
        requires
            player < old(self)@.players.len(),
        ensures
            final(self)@ == (AppView {
                players: old(self)@.players.update(player as int, Some(game)),
                ..old(self)@
            }),
    {
        self.online_players[player].joined_game = Some(game);
        assert(self@.players =~= old(self)@.players.update(player as int, Some(game)));
    }
}

/// The application behind the selector: every connection that is accepted
/// gets a player, and a connection for which no player is left is closed.
#[derive(Debug)]
pub struct Container {
    app: App,
}

impl Container {
    /// The games and players of the application.
    pub closed spec fn app(&self) -> AppView {
        self.app@
    }

    /// An application without games and players.
    pub fn new() -> (container: Self)
        ensures
            container.app() == (AppView { games: Seq::empty(), players: Seq::empty() }),
    {
        Container { app: App::new() }
    }

    /// The number of players that are online.
    pub fn players_online(&self) -> (count: usize)
        ensures
            count == self.app().players.len(),
    {
        let count = self.app.online_players.len();
        assert(self.app@.players.len() == self.app.online_players@.len());
        count
    }

    /// Creates the player of a connection that was just accepted.
    pub fn init_new_connection(&mut self) -> (result: Result<usize, CreatePlayerError>)
        ensures
            old(self).app().players.len() < MAX_PLAYERS ==> {
                &&& result == Ok::<usize, CreatePlayerError>(
                    old(self).app().players.len() as usize,
                )
                &&& final(self).app() == (AppView {
                    players: old(self).app().players.push(None),
                    ..old(self).app()
                })
            },
            old(self).app().players.len() >= MAX_PLAYERS ==> {
                &&& result == Err::<usize, CreatePlayerError>(CreatePlayerError::ReachedMaxPlayers)
                &&& final(self).app() == old(self).app()
            },
    {
        self.app.create_player()
    }
}

/// This application's `close` leaves every connection as it is, so that
/// working off the queue touches no connection that is not queued.
pub proof fn lemma_container_close_spares<S: Close + Flush + PollRead, C, const N: usize>(
    other: usize,
)
    ensures
        Selector::<Container, S, C, N>::close_spares(other),
{
}

impl<S: Close + Flush + PollRead, C, const N: usize> SelectorListener<S, C, N> for Container {
    /// A tick goes well and changes nothing.
    open spec fn tick_spec(
        pre: SelectorView<Self, S>,
        post: SelectorView<Self, S>,
        result: Result<(), ()>,
    ) -> bool {
        result is Ok && post == pre
    }

    /// The connection gets a player. If no player is left, a close of the
    /// connection is asked for.
    open spec fn accept_spec(
        pre: SelectorView<Self, S>,
        id: usize,
        post: SelectorView<Self, S>,
    ) -> bool {
        if pre.server.app().players.len() < MAX_PLAYERS {
            &&& post.channels == pre.channels
            &&& post.pending == pre.pending
            &&& post.server.app() == (AppView {
                players: pre.server.app().players.push(None),
                ..pre.server.app()
            })
        } else {
            &&& post.channels == pre.close_requested(id).channels
            &&& post.pending == pre.close_requested(id).pending
            &&& post.server.app() == pre.server.app()
        }
    }

    /// A read goes well and changes nothing.
    open spec fn read_spec(
        pre: SelectorView<Self, S>,
        id: usize,
        post: SelectorView<Self, S>,
        result: Result<(), ReadError>,
    ) -> bool {
        result is Ok && post == pre
    }

    /// A close changes nothing.
    open spec fn close_spec(
        pre: SelectorView<Self, S>,
        id: usize,
        post: SelectorView<Self, S>,
    ) -> bool {
        post == pre
    }

    fn tick(server: &mut Selector<Self, S, C, N>) -> (result: Result<(), ()>) {
        proof {
            server@.lemma_kept_reflexive();
        }
        Ok(())
    }

    fn accept(server: &mut Selector<Self, S, C, N>, id: Id<C>) {
        proof {
            server@.lemma_kept_reflexive();
        }
        match server.server_mut().init_new_connection() {
            Ok(_) => {},
            Err(_) => {
                let ghost asked = server@;
                server.request_socket_close(id);
                proof {
                    asked.lemma_steps_kept(id@, Ok(()), false, asked.channels[id@].stream);
                    SelectorView::lemma_kept_transitive(old(server)@, asked, server@);
                }
            },
        }
    }

    fn read(server: &mut Selector<Self, S, C, N>, id: Id<C>) -> (result: Result<(), ReadError>) {
        proof {
            server@.lemma_kept_reflexive();
        }
        Ok(())
    }

    fn close(server: &mut Selector<Self, S, C, N>, id: Id<C>) {
        proof {
            server@.lemma_kept_reflexive();
        }
    }
}

} // verus!
