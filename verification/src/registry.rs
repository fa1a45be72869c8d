//! The keyed registry of active games and the request handlers the
//! transport layer calls: each handler parses the wire-format identifiers,
//! finds the target game, applies one state-machine transition and returns
//! the response. The surrounding process serializes access per entry; one
//! handler call is one atomic transition on one game.

use vstd::prelude::*;
use std::collections::HashMap;
use crate::card::{Card, Color};
use crate::deck::full_deck_count;
use crate::event::{Error, Server};
use crate::game::{
    draw_post, join_post, place_post, start_post, update_post, Game,
};
use crate::ids::{fresh_id, parse_id, spec_parse_id};

verus! {

broadcast use vstd::std_specs::hash::group_hash_axioms, vstd::map::group_map_axioms;

/// The color a placement request names, if it names one: exactly the four
/// real color words are understood, anything else stands for no choice.
pub open spec fn spec_color_choice(s: Seq<char>) -> Option<Color> {
    if s == "Red"@ {
        Some(Color::Red)
    } else if s == "Green"@ {
        Some(Color::Green)
    } else if s == "Yellow"@ {
        Some(Color::Yellow)
    } else if s == "Blue"@ {
        Some(Color::Blue)
    } else {
        None
    }
}

/// Reads the color word of a placement request.
fn parse_color(s: &String) -> (r: Option<Color>)
    ensures
        r == spec_color_choice(s@),
{
    if *s == "Red".to_owned() {
        Some(Color::Red)
    } else if *s == "Green".to_owned() {
        Some(Color::Green)
    } else if *s == "Yellow".to_owned() {
        Some(Color::Yellow)
    } else if *s == "Blue".to_owned() {
        Some(Color::Blue)
    } else {
        None
    }
}

/// The table of active games, keyed by 128-bit game identifier. Each game
/// is owned exclusively by the registry; handlers take one out, apply one
/// transition and put it back.
pub struct GameRegistry {
    pub games: HashMap<u128, Game>,
}

impl GameRegistry {
    /// Every registered game is well-formed.
    pub open spec fn wf(self) -> bool {
        forall|id: u128| #[trigger] self.games@.contains_key(id) ==> self.games@[id].wf()
    }

    pub fn new() -> (r: Self)
        ensures
            r.games@ == Map::<u128, Game>::empty(),
            r.wf(),
    {
        GameRegistry { games: HashMap::new() }
    }

    /// Drops a finished game; removing an absent identifier is a no-op.
    pub fn remove_game(&mut self, game_id: u128)
        requires
            old(self).wf(),
        ensures
            final(self).wf(),
            final(self).games@ == old(self).games@.remove(game_id),
    {
        self.games.remove(&game_id);
    }

    /// Allocates a fresh game under a fresh identifier and hands back the
    /// identifier and the creator capability.
    pub fn create_game(&mut self) -> (r: Result<Server, Error>)
        requires
            old(self).wf(),
        ensures
            final(self).wf(),
            r matches Ok(Server::GameCreated { game_id_ret, gm_token_ret }) && {
                let g = final(self).games@[game_id_ret];
                &&& final(self).games@ == old(self).games@.insert(game_id_ret, g)
                &&& g.wf()
                &&& !g.started
                &&& !g.reversed
                &&& g.players@.len() == 0
                &&& g.creator_token == gm_token_ret
                &&& !g.table_card().is_wild()
                &&& forall|k: int|
                    0 <= k < g.discard@.len() - 1 ==> (#[trigger] g.discard@[k]).is_wild()
                &&& forall|c: Card| #[trigger] g.pot@.to_multiset().count(c)
                    + g.discard@.to_multiset().count(c) == full_deck_count(c)
                &&& g.total_cards() == 100
            },
    {
        let token = fresh_id();
        let game = Game::create(token);
        let id = fresh_id();
        self.games.insert(id, game);
        Ok(Server::GameCreated { game_id_ret: id, gm_token_ret: token })
    }

    /// Seats a named player in the addressed game. The freshly drawn
    /// player identifier is rejected only if it is already at the table,
    /// which random identifiers make negligible.
    pub fn join_game(&mut self, game_id: &String, name: String) -> (r: Result<Server, Error>)
        requires
            old(self).wf(),
        ensures
            final(self).wf(),
            spec_parse_id(game_id@) is None ==> (r matches Err(Error::InvalidUuid { id, error })
                && id@ == game_id@) && final(self).games@ == old(self).games@,
            spec_parse_id(game_id@) matches Some(gid) ==> !old(self).games@.contains_key(gid)
                ==> ((r matches Err(Error::GameDoesNotExist { game_id: g }) && g == gid) && final(self).games@ == old(self).games@),
            spec_parse_id(game_id@) matches Some(gid) ==> old(self).games@.contains_key(gid)
                ==> {
                let g1 = old(self).games@[gid];
                let g2 = final(self).games@[gid];
                &&& final(self).games@ == old(self).games@.insert(gid, g2)
                &&& g2.wf()
                &&& (r is Ok ==> (r matches Ok(Server::GameJoined {
                    game_id_ret,
                    player_id_ret,
                    order_num_ret,
                }) && game_id_ret == gid && join_post(g1, g2, name, player_id_ret, Ok(
                    order_num_ret,
                ))))
                &&& (r is Err ==> (r matches Err(Error::IllegalMove)) && g2 == g1)
                &&& (g1.started ==> r is Err)
            },
    {
        let gid = match parse_id(game_id.as_str()) {
            Ok(v) => v,
            Err(e) => {
                return Err(Error::InvalidUuid { id: game_id.clone(), error: e });
            },
        };
        let mut game = match self.games.remove(&gid) {
            Some(g) => g,
            None => {
                return Err(Error::GameDoesNotExist { game_id: gid });
            },
        };
        let pid = fresh_id();
        let res = game.join(name, pid);
        self.games.insert(gid, game);
        proof {
            assert(self.games@ =~= old(self).games@.insert(gid, self.games@[gid]));
        }
        match res {
            Ok(order) => Ok(
                Server::GameJoined { game_id_ret: gid, player_id_ret: pid, order_num_ret: order },
            ),
            Err(e) => Err(e),
        }
    }

    /// Starts the addressed game if the presented capability matches.
    pub fn start_game(&mut self, game_id: &String, gm_token: &String) -> (r: Result<Server, Error>)
        requires
            old(self).wf(),
        ensures
            final(self).wf(),
            spec_parse_id(game_id@) is None ==> (r matches Err(Error::InvalidUuid { id, error })
                && id@ == game_id@) && final(self).games@ == old(self).games@,
            spec_parse_id(game_id@) is Some && spec_parse_id(gm_token@) is None ==> (r matches Err(
                Error::InvalidUuid { id, error },
            ) && id@ == gm_token@) && final(self).games@ == old(self).games@,
            spec_parse_id(game_id@) matches Some(gid) ==> spec_parse_id(gm_token@) is Some
                ==> !old(self).games@.contains_key(gid) ==> ((r matches Err(
                Error::GameDoesNotExist { game_id: g },
            ) && g == gid) && final(self).games@ == old(self).games@),
            spec_parse_id(game_id@) matches Some(gid) ==> spec_parse_id(gm_token@) matches Some(
                tok,
            ) ==> old(self).games@.contains_key(gid) ==> {
                let g1 = old(self).games@[gid];
                let g2 = final(self).games@[gid];
                &&& final(self).games@ == old(self).games@.insert(gid, g2)
                &&& g2.wf()
                &&& start_post(g1, g2, tok, r)
            },
    {
        let gid = match parse_id(game_id.as_str()) {
            Ok(v) => v,
            Err(e) => {
                return Err(Error::InvalidUuid { id: game_id.clone(), error: e });
            },
        };
        let tok = match parse_id(gm_token.as_str()) {
            Ok(v) => v,
            Err(e) => {
                return Err(Error::InvalidUuid { id: gm_token.clone(), error: e });
            },
        };
        let mut game = match self.games.remove(&gid) {
            Some(g) => g,
            None => {
                return Err(Error::GameDoesNotExist { game_id: gid });
            },
        };
        let res = game.start(tok);
        self.games.insert(gid, game);
        proof {
            assert(self.games@ =~= old(self).games@.insert(gid, self.games@[gid]));
        }
        res
    }

    /// Answers a poll with the player's snapshot of the addressed game.
    pub fn request_update(&self, game_id: &String, player_id: &String) -> (r: Result<
        Server,
        Error,
    >)
        requires
            self.wf(),
        ensures
            spec_parse_id(game_id@) is None ==> (r matches Err(Error::InvalidUuid { id, error })
                && id@ == game_id@),
            spec_parse_id(game_id@) is Some && spec_parse_id(player_id@) is None ==> (r
                matches Err(Error::InvalidUuid { id, error }) && id@ == player_id@),
            spec_parse_id(game_id@) matches Some(gid) ==> spec_parse_id(player_id@) is Some
                ==> !self.games@.contains_key(gid) ==> (r matches Err(Error::GameDoesNotExist {
                game_id: g,
            }) && g == gid),
            spec_parse_id(game_id@) matches Some(gid) ==> spec_parse_id(player_id@) matches Some(
                pid,
            ) ==> self.games@.contains_key(gid) ==> update_post(self.games@[gid], pid, r),
    {
        let gid = match parse_id(game_id.as_str()) {
            Ok(v) => v,
            Err(e) => {
                return Err(Error::InvalidUuid { id: game_id.clone(), error: e });
            },
        };
        let pid = match parse_id(player_id.as_str()) {
            Ok(v) => v,
            Err(e) => {
                return Err(Error::InvalidUuid { id: player_id.clone(), error: e });
            },
        };
        let game = match self.games.get(&gid) {
            Some(g) => g,
            None => {
                return Err(Error::GameDoesNotExist { game_id: gid });
            },
        };
        game.update_for(pid)
    }

    /// Applies one card placement to the addressed game.
    pub fn place_card(
        &mut self,
        game_id: &String,
        player_id: &String,
        index: usize,
        color: &String,
    ) -> (r: Result<Server, Error>)
        requires
            old(self).wf(),
        ensures
            final(self).wf(),
            spec_parse_id(game_id@) is None ==> (r matches Err(Error::InvalidUuid { id, error })
                && id@ == game_id@) && final(self).games@ == old(self).games@,
            spec_parse_id(game_id@) is Some && spec_parse_id(player_id@) is None ==> (r
                matches Err(Error::InvalidUuid { id, error }) && id@ == player_id@) && final(self).games@ == old(self).games@,
            spec_parse_id(game_id@) matches Some(gid) ==> spec_parse_id(player_id@) is Some
                ==> !old(self).games@.contains_key(gid) ==> ((r matches Err(
                Error::GameDoesNotExist { game_id: g },
            ) && g == gid) && final(self).games@ == old(self).games@),
            spec_parse_id(game_id@) matches Some(gid) ==> spec_parse_id(player_id@) matches Some(
                pid,
            ) ==> old(self).games@.contains_key(gid) ==> {
                let g1 = old(self).games@[gid];
                let g2 = final(self).games@[gid];
                &&& final(self).games@ == old(self).games@.insert(gid, g2)
                &&& g2.wf()
                &&& place_post(g1, g2, pid, index, spec_color_choice(color@), r)
            },
    {
        let gid = match parse_id(game_id.as_str()) {
            Ok(v) => v,
            Err(e) => {
                return Err(Error::InvalidUuid { id: game_id.clone(), error: e });
            },
        };
        let pid = match parse_id(player_id.as_str()) {
            Ok(v) => v,
            Err(e) => {
                return Err(Error::InvalidUuid { id: player_id.clone(), error: e });
            },
        };
        let chosen = parse_color(color);
        let mut game = match self.games.remove(&gid) {
            Some(g) => g,
            None => {
                return Err(Error::GameDoesNotExist { game_id: gid });
            },
        };
        let res = game.place(pid, index, chosen);
        self.games.insert(gid, game);
        proof {
            assert(self.games@ =~= old(self).games@.insert(gid, self.games@[gid]));
        }
        res
    }

    /// Draws one card for the addressed player.
    pub fn draw_card(&mut self, game_id: &String, player_id: &String) -> (r: Result<Server, Error>)
        requires
            old(self).wf(),
        ensures
            final(self).wf(),
            spec_parse_id(game_id@) is None ==> (r matches Err(Error::InvalidUuid { id, error })
                && id@ == game_id@) && final(self).games@ == old(self).games@,
            spec_parse_id(game_id@) is Some && spec_parse_id(player_id@) is None ==> (r
                matches Err(Error::InvalidUuid { id, error }) && id@ == player_id@) && final(self).games@ == old(self).games@,
            spec_parse_id(game_id@) matches Some(gid) ==> spec_parse_id(player_id@) is Some
                ==> !old(self).games@.contains_key(gid) ==> ((r matches Err(
                Error::GameDoesNotExist { game_id: g },
            ) && g == gid) && final(self).games@ == old(self).games@),
            spec_parse_id(game_id@) matches Some(gid) ==> spec_parse_id(player_id@) matches Some(
                pid,
            ) ==> old(self).games@.contains_key(gid) ==> {
                let g1 = old(self).games@[gid];
                let g2 = final(self).games@[gid];
                &&& final(self).games@ == old(self).games@.insert(gid, g2)
                &&& g2.wf()
                &&& draw_post(g1, g2, pid, r)
            },
    {
        let gid = match parse_id(game_id.as_str()) {
            Ok(v) => v,
            Err(e) => {
                return Err(Error::InvalidUuid { id: game_id.clone(), error: e });
            },
        };
        let pid = match parse_id(player_id.as_str()) {
            Ok(v) => v,
            Err(e) => {
                return Err(Error::InvalidUuid { id: player_id.clone(), error: e });
            },
        };
        let mut game = match self.games.remove(&gid) {
            Some(g) => g,
            None => {
                return Err(Error::GameDoesNotExist { game_id: gid });
            },
        };
        let res = game.draw(pid);
        self.games.insert(gid, game);
        proof {
            assert(self.games@ =~= old(self).games@.insert(gid, self.games@[gid]));
        }
        res
    }
}

} // verus!
