//! One duel session: its players, and the engine that resolves two
//! simultaneously submitted round actions into a deterministic outcome.

use vstd::prelude::*;

use crate::messages::ActionV;
use crate::messages::Action;
use crate::messages::LineV;
use crate::messages::ParsedLine;
use crate::messages::RoundAction;

verus! {

/// One player's state inside a session.
pub struct PlayerState {
    /// The player's self-reported name.
    pub nickname: String,
    /// How many bullets are loaded.
    pub ammo_bag: u64,
    /// Whether the player is still alive.
    pub alive: bool,
}

/// Spec-level value of a [`PlayerState`].
pub struct PlayerV {
    pub nickname: Seq<char>,
    pub ammo_bag: u64,
    pub alive: bool,
}

impl View for PlayerState {
    type V = PlayerV;

    open spec fn view(&self) -> PlayerV {
        PlayerV { nickname: self.nickname@, ammo_bag: self.ammo_bag, alive: self.alive }
    }
}

/// One duel between exactly two players, addressed by its global id.
pub struct GameState {
    /// The session's global id; never reused.
    pub game_id: u64,
    /// The player dequeued first when the session was made.
    pub left_player: PlayerState,
    /// The player dequeued second.
    pub right_player: PlayerState,
    /// The connection that owns the left player.
    pub left_conn: u64,
    /// The connection that owns the right player.
    pub right_conn: u64,
    /// The left side's action for the current round, once submitted.
    pub pending_left: Option<RoundAction>,
    /// The right side's action for the current round, once submitted.
    pub pending_right: Option<RoundAction>,
    /// When the current round times out, in the caller's clock.
    pub round_deadline: u64,
}

/// Spec-level value of a [`GameState`].
pub struct GameV {
    pub game_id: u64,
    pub left_player: PlayerV,
    pub right_player: PlayerV,
    pub left_conn: u64,
    pub right_conn: u64,
    pub pending_left: Option<RoundAction>,
    pub pending_right: Option<RoundAction>,
    pub round_deadline: u64,
}

impl View for GameState {
    type V = GameV;

    open spec fn view(&self) -> GameV {
        GameV {
            game_id: self.game_id,
            left_player: self.left_player@,
            right_player: self.right_player@,
            left_conn: self.left_conn,
            right_conn: self.right_conn,
            pending_left: self.pending_left,
            pending_right: self.pending_right,
            round_deadline: self.round_deadline,
        }
    }
}

/// One outbound message, addressed to a connection.
#[derive(Debug, PartialEq)]
pub struct Reply {
    pub conn: u64,
    pub line: ParsedLine,
}

/// Spec-level value of a [`Reply`].
pub struct ReplyV {
    pub conn: u64,
    pub line: LineV,
}

impl View for Reply {
    type V = ReplyV;

    open spec fn view(&self) -> ReplyV {
        ReplyV { conn: self.conn, line: self.line@ }
    }
}

/// The spec-level value of a vector of replies.
pub open spec fn replies_view(v: Seq<Reply>) -> Seq<ReplyV> {
    v.map_values(|r: Reply| r@)
}

/// How one resolved round ends.
#[derive(Clone, Copy, Debug, PartialEq, Eq, Structural)]
pub enum RoundOutcome {
    /// Nobody died; the duel goes on with a fresh round.
    Continue,
    /// Only the right player died.
    LeftWins,
    /// Only the left player died.
    RightWins,
    /// Both died simultaneously; the duel ends in a stalemate.
    Draw,
}

/// Addition that stops at the integer ceiling, for deadline arithmetic.
pub open spec fn sat_add(x: u64, y: u64) -> u64 {
    if x + y <= u64::MAX {
        (x + y) as u64
    } else {
        u64::MAX
    }
}

/// The reported form of an action: an empty-handed `Shoot` degrades to
/// `Klick`; everything else reports as submitted.
pub open spec fn effective_action(a: RoundAction, ammo: u64) -> RoundAction {
    if a == RoundAction::Shoot && ammo == 0 {
        RoundAction::Klick
    } else {
        a
    }
}

/// The sender's ammo after its own action: `Load` adds a bullet (an ammo bag
/// already at the integer ceiling stays there), a non-empty `Shoot` spends
/// one, everything else leaves the bag alone.
pub open spec fn ammo_after(a: RoundAction, ammo: u64) -> u64 {
    if a == RoundAction::Load {
        sat_add(ammo, 1)
    } else if a == RoundAction::Shoot && ammo > 0 {
        (ammo - 1) as u64
    } else {
        ammo
    }
}

/// Whether an action kills the opponent: a `Shoot` with ammo against anyone
/// not ducking.
pub open spec fn kills(a: RoundAction, ammo: u64, opponent_action: RoundAction) -> bool {
    a == RoundAction::Shoot && ammo > 0 && opponent_action != RoundAction::Duck
}

/// One player after a round: own action spends or loads ammo, the opponent's
/// action may kill.
pub open spec fn player_after(
    p: PlayerV,
    own: RoundAction,
    opp: RoundAction,
    opp_ammo: u64,
) -> PlayerV {
    PlayerV {
        nickname: p.nickname,
        ammo_bag: ammo_after(own, p.ammo_bag),
        alive: p.alive && !kills(opp, opp_ammo, own),
    }
}

/// Both effective actions of a round, left first.
pub open spec fn round_report(g: GameV, a: RoundAction, b: RoundAction) -> (
    RoundAction,
    RoundAction,
) {
    (effective_action(a, g.left_player.ammo_bag), effective_action(b, g.right_player.ammo_bag))
}

/// Classifies a round by who is left alive.
pub open spec fn round_outcome_of(g: GameV, a: RoundAction, b: RoundAction) -> RoundOutcome {
    let left = player_after(g.left_player, a, b, g.right_player.ammo_bag);
    let right = player_after(g.right_player, b, a, g.left_player.ammo_bag);
    if left.alive && right.alive {
        RoundOutcome::Continue
    } else if left.alive {
        RoundOutcome::LeftWins
    } else if right.alive {
        RoundOutcome::RightWins
    } else {
        RoundOutcome::Draw
    }
}

/// The session after a resolved round: both players updated, fresh pending
/// slots, and the next deadline one round length after `now`.
pub open spec fn game_after_round(
    g: GameV,
    a: RoundAction,
    b: RoundAction,
    now: u64,
    max_round_length_ms: u64,
) -> GameV {
    GameV {
        game_id: g.game_id,
        left_player: player_after(g.left_player, a, b, g.right_player.ammo_bag),
        right_player: player_after(g.right_player, b, a, g.left_player.ammo_bag),
        left_conn: g.left_conn,
        right_conn: g.right_conn,
        pending_left: None,
        pending_right: None,
        round_deadline: sat_add(now, max_round_length_ms),
    }
}

/// The messages a resolved round sends: the effective round report to both
/// sides and, when somebody died, one terminal verdict each — `WinGame` and
/// `LoseGame` for a single death, `ErrorEnd` to both for the stalemate of two
/// simultaneous lethal shots.
pub open spec fn round_replies(g: GameV, a: RoundAction, b: RoundAction) -> Seq<ReplyV> {
    let report = round_report(g, a, b);
    let rr = LineV::MultiplexedMessage {
        game_id: g.game_id,
        action: ActionV::RoundResult { a: report.0, b: report.1 },
    };
    let base = seq![
        ReplyV { conn: g.left_conn, line: rr },
        ReplyV { conn: g.right_conn, line: rr },
    ];
    match round_outcome_of(g, a, b) {
        RoundOutcome::Continue => base,
        RoundOutcome::LeftWins => base + seq![
            ReplyV {
                conn: g.left_conn,
                line: LineV::MultiplexedMessage { game_id: g.game_id, action: ActionV::WinGame },
            },
            ReplyV {
                conn: g.right_conn,
                line: LineV::MultiplexedMessage { game_id: g.game_id, action: ActionV::LoseGame },
            },
        ],
        RoundOutcome::RightWins => base + seq![
            ReplyV {
                conn: g.left_conn,
                line: LineV::MultiplexedMessage { game_id: g.game_id, action: ActionV::LoseGame },
            },
            ReplyV {
                conn: g.right_conn,
                line: LineV::MultiplexedMessage { game_id: g.game_id, action: ActionV::WinGame },
            },
        ],
        RoundOutcome::Draw => base + seq![
            ReplyV {
                conn: g.left_conn,
                line: LineV::MultiplexedMessage { game_id: g.game_id, action: ActionV::ErrorEnd },
            },
            ReplyV {
                conn: g.right_conn,
                line: LineV::MultiplexedMessage { game_id: g.game_id, action: ActionV::ErrorEnd },
            },
        ],
    }
}

/// Law: an empty-handed `Shoot` against a `Duck` degrades to `Klick`: the
/// round is reported `Klick` / `Duck`, nobody dies, no verdict is sent, and
/// the duel goes on.
pub proof fn lemma_empty_shot_vs_duck(g: GameV, now: u64, max_round_length_ms: u64)
    requires
        g.left_player.alive,
        g.right_player.alive,
        g.left_player.ammo_bag == 0,
    ensures
        round_report(g, RoundAction::Shoot, RoundAction::Duck) == (
            RoundAction::Klick,
            RoundAction::Duck,
        ),
        game_after_round(
            g,
            RoundAction::Shoot,
            RoundAction::Duck,
            now,
            max_round_length_ms,
        ).left_player.alive,
        game_after_round(
            g,
            RoundAction::Shoot,
            RoundAction::Duck,
            now,
            max_round_length_ms,
        ).right_player.alive,
        round_outcome_of(g, RoundAction::Shoot, RoundAction::Duck) is Continue,
        round_replies(g, RoundAction::Shoot, RoundAction::Duck) =~= seq![
            ReplyV {
                conn: g.left_conn,
                line: LineV::MultiplexedMessage {
                    game_id: g.game_id,
                    action: ActionV::RoundResult {
                        a: RoundAction::Klick,
                        b: RoundAction::Duck,
                    },
                },
            },
            ReplyV {
                conn: g.right_conn,
                line: LineV::MultiplexedMessage {
                    game_id: g.game_id,
                    action: ActionV::RoundResult {
                        a: RoundAction::Klick,
                        b: RoundAction::Duck,
                    },
                },
            },
        ],
{
}

/// Law: a loaded `Shoot` kills an opponent that `Load`s instead of ducking:
/// the loader dies, the shooter lives and spends a bullet, and after the
/// round report the shooter is sent `WinGame` and the loader `LoseGame`.
pub proof fn lemma_loaded_shot_kills_loader(g: GameV, now: u64, max_round_length_ms: u64)
    requires
        g.left_player.alive,
        g.right_player.alive,
        g.left_player.ammo_bag >= 1,
    ensures
        ({
            let after = game_after_round(g, RoundAction::Shoot, RoundAction::Load, now,
            max_round_length_ms);
            &&& after.left_player.alive
            &&& !after.right_player.alive
            &&& after.left_player.ammo_bag == g.left_player.ammo_bag - 1
        }),
        round_outcome_of(g, RoundAction::Shoot, RoundAction::Load) is LeftWins,
        round_replies(g, RoundAction::Shoot, RoundAction::Load).len() == 4,
        round_replies(g, RoundAction::Shoot, RoundAction::Load)[2] == (ReplyV {
            conn: g.left_conn,
            line: LineV::MultiplexedMessage { game_id: g.game_id, action: ActionV::WinGame },
        }),
        round_replies(g, RoundAction::Shoot, RoundAction::Load)[3] == (ReplyV {
            conn: g.right_conn,
            line: LineV::MultiplexedMessage { game_id: g.game_id, action: ActionV::LoseGame },
        }),
{
}

/// Law: simultaneous lethal shots — both sides alive, both with ammo, both
/// shooting, neither ducking — kill both duelists, and the duel ends in a
/// stalemate: after the round report both sides get the terminal `ErrorEnd`,
/// and neither a `WinGame` nor a `LoseGame`.
pub proof fn lemma_mutual_shots_stalemate(g: GameV, now: u64, max_round_length_ms: u64)
    requires
        g.left_player.alive,
        g.right_player.alive,
        g.left_player.ammo_bag >= 1,
        g.right_player.ammo_bag >= 1,
    ensures
        ({
            let after = game_after_round(g, RoundAction::Shoot, RoundAction::Shoot, now,
            max_round_length_ms);
            !after.left_player.alive && !after.right_player.alive
        }),
        round_outcome_of(g, RoundAction::Shoot, RoundAction::Shoot) is Draw,
        round_replies(g, RoundAction::Shoot, RoundAction::Shoot).len() == 4,
        round_replies(g, RoundAction::Shoot, RoundAction::Shoot)[2] == (ReplyV {
            conn: g.left_conn,
            line: LineV::MultiplexedMessage { game_id: g.game_id, action: ActionV::ErrorEnd },
        }),
        round_replies(g, RoundAction::Shoot, RoundAction::Shoot)[3] == (ReplyV {
            conn: g.right_conn,
            line: LineV::MultiplexedMessage { game_id: g.game_id, action: ActionV::ErrorEnd },
        }),
        forall|k: int|
            0 <= k < 4 ==> !(round_replies(g, RoundAction::Shoot, RoundAction::Shoot)[k].line
                matches LineV::MultiplexedMessage { action: ActionV::WinGame, .. })
                && !(#[trigger] round_replies(g, RoundAction::Shoot, RoundAction::Shoot)[k].line
                matches LineV::MultiplexedMessage { action: ActionV::LoseGame, .. }),
{
}

/// Saturating addition on `u64`.
pub fn sat_add_exec(x: u64, y: u64) -> (r: u64)
    ensures
        r == sat_add(x, y),
{
    if y <= u64::MAX - x {
        x + y
    } else {
        u64::MAX
    }
}

impl GameState {
    /// Applies one round to the session: updates both players, clears the
    /// pending slots, restarts the deadline, and returns the replies to send
    /// together with the outcome.  The caller drops the session unless the
    /// outcome is `Continue`.
    pub fn resolve_round(
        &mut self,
        a: RoundAction,
        b: RoundAction,
        now: u64,
        max_round_length_ms: u64,
    ) -> (r: (Vec<Reply>, RoundOutcome))
        ensures
            final(self)@ == game_after_round(old(self)@, a, b, now, max_round_length_ms),
            replies_view(r.0@) == round_replies(old(self)@, a, b),
            r.1 == round_outcome_of(old(self)@, a, b),
    {
        let left_ammo = self.left_player.ammo_bag;
        let right_ammo = self.right_player.ammo_bag;
        let ea = if a == RoundAction::Shoot && left_ammo == 0 {
            RoundAction::Klick
        } else {
            a
        };
        let eb = if b == RoundAction::Shoot && right_ammo == 0 {
            RoundAction::Klick
        } else {
            b
        };
        self.left_player.ammo_bag = if a == RoundAction::Load {
            sat_add_exec(left_ammo, 1)
        } else if a == RoundAction::Shoot && left_ammo > 0 {
            left_ammo - 1
        } else {
            left_ammo
        };
        self.right_player.ammo_bag = if b == RoundAction::Load {
            sat_add_exec(right_ammo, 1)
        } else if b == RoundAction::Shoot && right_ammo > 0 {
            right_ammo - 1
        } else {
            right_ammo
        };
        let left_killed = b == RoundAction::Shoot && right_ammo > 0 && a != RoundAction::Duck;
        let right_killed = a == RoundAction::Shoot && left_ammo > 0 && b != RoundAction::Duck;
        self.left_player.alive = self.left_player.alive && !left_killed;
        self.right_player.alive = self.right_player.alive && !right_killed;
        self.pending_left = None;
        self.pending_right = None;
        self.round_deadline = sat_add_exec(now, max_round_length_ms);
        let outcome = if self.left_player.alive && self.right_player.alive {
            RoundOutcome::Continue
        } else if self.left_player.alive {
            RoundOutcome::LeftWins
        } else if self.right_player.alive {
            RoundOutcome::RightWins
        } else {
            RoundOutcome::Draw
        };
        let mut replies: Vec<Reply> = Vec::new();
        replies.push(
            Reply {
                conn: self.left_conn,
                line: ParsedLine::MultiplexedMessage {
                    game_id: self.game_id,
                    action: Action::RoundResult { a: ea, b: eb },
                },
            },
        );
        replies.push(
            Reply {
                conn: self.right_conn,
                line: ParsedLine::MultiplexedMessage {
                    game_id: self.game_id,
                    action: Action::RoundResult { a: ea, b: eb },
                },
            },
        );
        match outcome {
            RoundOutcome::Continue => {},
            RoundOutcome::LeftWins => {
                replies.push(
                    Reply {
                        conn: self.left_conn,
                        line: ParsedLine::MultiplexedMessage {
                            game_id: self.game_id,
                            action: Action::WinGame,
                        },
                    },
                );
                replies.push(
                    Reply {
                        conn: self.right_conn,
                        line: ParsedLine::MultiplexedMessage {
                            game_id: self.game_id,
                            action: Action::LoseGame,
                        },
                    },
                );
            },
            RoundOutcome::RightWins => {
                replies.push(
                    Reply {
                        conn: self.left_conn,
                        line: ParsedLine::MultiplexedMessage {
                            game_id: self.game_id,
                            action: Action::LoseGame,
                        },
                    },
                );
                replies.push(
                    Reply {
                        conn: self.right_conn,
                        line: ParsedLine::MultiplexedMessage {
                            game_id: self.game_id,
                            action: Action::WinGame,
                        },
                    },
                );
            },
            RoundOutcome::Draw => {
                replies.push(
                    Reply {
                        conn: self.left_conn,
                        line: ParsedLine::MultiplexedMessage {
                            game_id: self.game_id,
                            action: Action::ErrorEnd,
                        },
                    },
                );
                replies.push(
                    Reply {
                        conn: self.right_conn,
                        line: ParsedLine::MultiplexedMessage {
                            game_id: self.game_id,
                            action: Action::ErrorEnd,
                        },
                    },
                );
            },
        }
        proof {
            assert(replies_view(replies@) =~= round_replies(old(self)@, a, b));
        }
        (replies, outcome)
    }
}

} // verus!
