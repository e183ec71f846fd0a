//! The arena registry: the FIFO matchmaking queue and the table of active
//! duel sessions, shared by every connection, plus the per-connection
//! service that routes established-connection traffic into it.

use vstd::prelude::*;

use crate::duel::GameState;
use crate::duel::GameV;
use crate::duel::PlayerState;
use crate::duel::PlayerV;
use crate::duel::Reply;
use crate::duel::ReplyV;
use crate::duel::RoundOutcome;
use crate::duel::game_after_round;
use crate::duel::replies_view;
use crate::duel::round_outcome_of;
use crate::duel::round_replies;
use crate::duel::sat_add;
use crate::duel::sat_add_exec;
use crate::messages::Action;
use crate::messages::ActionV;
use crate::messages::LineV;
use crate::messages::ParsedLine;
use crate::messages::ProtocolError;
use crate::messages::RoundAction;

verus! {

/// The round length the server announces, in milliseconds.
pub const DEFAULT_ROUND_LENGTH_MS: u64 = 200;

/// A player waiting in the matchmaking queue.
pub struct WaitingPlayer {
    /// The connection that queued.
    pub conn: u64,
    /// The player's self-reported name.
    pub nickname: String,
}

/// Spec-level value of a [`WaitingPlayer`].
pub struct WaitingV {
    pub conn: u64,
    pub nickname: Seq<char>,
}

impl View for WaitingPlayer {
    type V = WaitingV;

    open spec fn view(&self) -> WaitingV {
        WaitingV { conn: self.conn, nickname: self.nickname@ }
    }
}

/// The registry's whole state: the FIFO queue, the session table, and the
/// monotone id counter.
pub struct ArenaServer {
    /// Players waiting for an opponent, oldest first.
    pub waiting_queue: Vec<WaitingPlayer>,
    /// The active duel sessions.
    pub arenas: Vec<GameState>,
    /// The next session id to hand out; ids are never reused.
    pub next_game_id: u64,
    /// The per-round deadline the server grants, in milliseconds.
    pub max_round_length_ms: u64,
}

/// Spec-level value of an [`ArenaServer`].
pub struct ArenaV {
    pub queue: Seq<WaitingV>,
    pub arenas: Seq<GameV>,
    pub next_game_id: u64,
    pub max_round_length_ms: u64,
}

impl View for ArenaServer {
    type V = ArenaV;

    open spec fn view(&self) -> ArenaV {
        ArenaV {
            queue: self.waiting_queue@.map_values(|w: WaitingPlayer| w@),
            arenas: self.arenas@.map_values(|g: GameState| g@),
            next_game_id: self.next_game_id,
            max_round_length_ms: self.max_round_length_ms,
        }
    }
}

// ---------------------------------------------------------------------------
// Well-formedness
// ---------------------------------------------------------------------------
/// The connection takes part in the session.
pub open spec fn conn_in_game(g: GameV, conn: u64) -> bool {
    g.left_conn == conn || g.right_conn == conn
}

/// The connection takes part in some active session.
pub open spec fn conn_in_arenas(s: Seq<GameV>, conn: u64) -> bool {
    exists|i: int| 0 <= i < s.len() && conn_in_game(#[trigger] s[i], conn)
}

/// The connection waits in the queue.
pub open spec fn conn_waiting(q: Seq<WaitingV>, conn: u64) -> bool {
    exists|i: int| 0 <= i < q.len() && (#[trigger] q[i]).conn == conn
}

/// The connection has an outstanding request: it waits or plays.
pub open spec fn conn_busy(s: ArenaV, conn: u64) -> bool {
    conn_waiting(s.queue, conn) || conn_in_arenas(s.arenas, conn)
}

/// A session the registry may hold: its id below the counter, two distinct
/// connections, both players alive (a death ends the session at once), and
/// never two submitted actions at rest (two actions resolve at once).
pub open spec fn wf_game(g: GameV, next_id: u64) -> bool {
    &&& g.game_id < next_id
    &&& g.left_conn != g.right_conn
    &&& g.left_player.alive
    &&& g.right_player.alive
    &&& !(g.pending_left is Some && g.pending_right is Some)
}

/// The registry invariant: all sessions well formed with pairwise distinct
/// ids and connections, queue entries pairwise distinct, and no connection
/// both waiting and playing.
pub open spec fn wf_arena(s: ArenaV) -> bool {
    &&& forall|i: int| 0 <= i < s.arenas.len() ==> wf_game(#[trigger] s.arenas[i], s.next_game_id)
    &&& forall|i: int, j: int|
        #![trigger s.arenas[i], s.arenas[j]]
        0 <= i < j < s.arenas.len() ==> s.arenas[i].game_id != s.arenas[j].game_id
            && s.arenas[i].left_conn != s.arenas[j].left_conn && s.arenas[i].left_conn
            != s.arenas[j].right_conn && s.arenas[i].right_conn != s.arenas[j].left_conn
            && s.arenas[i].right_conn != s.arenas[j].right_conn
    &&& forall|i: int, j: int|
        #![trigger s.queue[i], s.queue[j]]
        0 <= i < j < s.queue.len() ==> s.queue[i].conn != s.queue[j].conn
    &&& forall|i: int|
        0 <= i < s.queue.len() ==> !conn_in_arenas(s.arenas, (#[trigger] s.queue[i]).conn)
}

// ---------------------------------------------------------------------------
// Searching the tables
// ---------------------------------------------------------------------------
/// First index at or after `from` of the session with this id; the length
/// when there is none.
pub open spec fn game_index(s: Seq<GameV>, id: u64, from: int) -> int
    decreases s.len() - from,
{
    if from < 0 || from >= s.len() {
        s.len() as int
    } else if s[from].game_id == id {
        from
    } else {
        game_index(s, id, from + 1)
    }
}

pub proof fn lemma_game_index(s: Seq<GameV>, id: u64, from: int)
    requires
        0 <= from <= s.len(),
    ensures
        from <= game_index(s, id, from) <= s.len(),
        game_index(s, id, from) < s.len() ==> s[game_index(s, id, from)].game_id == id,
        forall|j: int| from <= j < game_index(s, id, from) ==> (#[trigger] s[j]).game_id != id,
    decreases s.len() - from,
{
    if from < s.len() && s[from].game_id != id {
        lemma_game_index(s, id, from + 1);
    }
}

pub proof fn lemma_game_index_is(s: Seq<GameV>, id: u64, from: int, k: int)
    requires
        0 <= from <= k < s.len(),
        s[k].game_id == id,
        forall|j: int| from <= j < k ==> (#[trigger] s[j]).game_id != id,
    ensures
        game_index(s, id, from) == k,
    decreases k - from,
{
    if from < k {
        lemma_game_index_is(s, id, from + 1, k);
    }
}

pub proof fn lemma_game_index_none(s: Seq<GameV>, id: u64, from: int)
    requires
        0 <= from <= s.len(),
        forall|j: int| from <= j < s.len() ==> (#[trigger] s[j]).game_id != id,
    ensures
        game_index(s, id, from) == s.len(),
    decreases s.len() - from,
{
    if from < s.len() {
        lemma_game_index_none(s, id, from + 1);
    }
}

/// First index at or after `from` of a session this connection plays in; the
/// length when there is none.
pub open spec fn conn_game_index(s: Seq<GameV>, conn: u64, from: int) -> int
    decreases s.len() - from,
{
    if from < 0 || from >= s.len() {
        s.len() as int
    } else if conn_in_game(s[from], conn) {
        from
    } else {
        conn_game_index(s, conn, from + 1)
    }
}

pub proof fn lemma_conn_game_index(s: Seq<GameV>, conn: u64, from: int)
    requires
        0 <= from <= s.len(),
    ensures
        from <= conn_game_index(s, conn, from) <= s.len(),
        conn_game_index(s, conn, from) < s.len() ==> conn_in_game(
            s[conn_game_index(s, conn, from)],
            conn,
        ),
        forall|j: int| from <= j < conn_game_index(s, conn, from) ==> !conn_in_game(
            #[trigger] s[j],
            conn,
        ),
        conn_game_index(s, conn, from) == s.len() ==> forall|j: int|
            from <= j < s.len() ==> !conn_in_game(#[trigger] s[j], conn),
    decreases s.len() - from,
{
    if from < s.len() && !conn_in_game(s[from], conn) {
        lemma_conn_game_index(s, conn, from + 1);
    }
}

pub proof fn lemma_conn_game_index_none(s: Seq<GameV>, conn: u64, from: int)
    requires
        0 <= from <= s.len(),
        forall|j: int| from <= j < s.len() ==> !conn_in_game(#[trigger] s[j], conn),
    ensures
        conn_game_index(s, conn, from) == s.len(),
    decreases s.len() - from,
{
    if from < s.len() {
        lemma_conn_game_index_none(s, conn, from + 1);
    }
}

pub proof fn lemma_conn_game_index_is(s: Seq<GameV>, conn: u64, from: int, k: int)
    requires
        0 <= from <= k < s.len(),
        conn_in_game(s[k], conn),
        forall|j: int| from <= j < k ==> !conn_in_game(#[trigger] s[j], conn),
    ensures
        conn_game_index(s, conn, from) == k,
    decreases k - from,
{
    if from < k {
        lemma_conn_game_index_is(s, conn, from + 1, k);
    }
}

// ---------------------------------------------------------------------------
// The registry's transitions, as spec functions
// ---------------------------------------------------------------------------
/// The session made when `w0` (older) is paired against `w1`.
pub open spec fn paired_game(s: ArenaV, w0: WaitingV, w1: WaitingV, now: u64) -> GameV {
    GameV {
        game_id: s.next_game_id,
        left_player: PlayerV { nickname: w0.nickname, ammo_bag: 0, alive: true },
        right_player: PlayerV { nickname: w1.nickname, ammo_bag: 0, alive: true },
        left_conn: w0.conn,
        right_conn: w1.conn,
        pending_left: None,
        pending_right: None,
        round_deadline: sat_add(now, s.max_round_length_ms),
    }
}

/// Matching: when two or more players wait, the two oldest are dequeued into
/// a fresh session and each is told the other's name.
pub open spec fn spec_find_or_create(s: ArenaV, now: u64) -> (ArenaV, Seq<ReplyV>) {
    if s.queue.len() < 2 {
        (s, Seq::empty())
    } else {
        let w0 = s.queue[0];
        let w1 = s.queue[1];
        let g = paired_game(s, w0, w1, now);
        let s1 = ArenaV {
            queue: s.queue.subrange(2, s.queue.len() as int),
            arenas: s.arenas.push(g),
            next_game_id: (s.next_game_id + 1) as u64,
            max_round_length_ms: s.max_round_length_ms,
        };
        let replies = seq![
            ReplyV {
                conn: w0.conn,
                line: LineV::MultiplexedMessage {
                    game_id: g.game_id,
                    action: ActionV::NewGame { opponent: w1.nickname },
                },
            },
            ReplyV {
                conn: w1.conn,
                line: LineV::MultiplexedMessage {
                    game_id: g.game_id,
                    action: ActionV::NewGame { opponent: w0.nickname },
                },
            },
        ];
        (s1, replies)
    }
}

/// A matchmaking request: a player that already waits or plays is rejected;
/// everyone else joins the tail of the queue, and matching runs.
pub open spec fn spec_request_new_game(
    s: ArenaV,
    conn: u64,
    nickname: Seq<char>,
    now: u64,
) -> Result<(ArenaV, Seq<ReplyV>), ProtocolError> {
    if conn_busy(s, conn) {
        Err(ProtocolError::DuplicateRequest)
    } else {
        let s1 = ArenaV {
            queue: s.queue.push(WaitingV { conn, nickname }),
            arenas: s.arenas,
            next_game_id: s.next_game_id,
            max_round_length_ms: s.max_round_length_ms,
        };
        Ok(spec_find_or_create(s1, now))
    }
}

/// One resolved round applied to the table: the session at `i` is updated
/// when the duel goes on and removed when it ended.
pub open spec fn apply_round(s: ArenaV, i: int, a: RoundAction, b: RoundAction, now: u64) -> (
    ArenaV,
    Seq<ReplyV>,
) {
    let g = s.arenas[i];
    let replies = round_replies(g, a, b);
    let arenas = if round_outcome_of(g, a, b) is Continue {
        s.arenas.update(i, game_after_round(g, a, b, now, s.max_round_length_ms))
    } else {
        s.arenas.remove(i)
    };
    (
        ArenaV {
            queue: s.queue,
            arenas,
            next_game_id: s.next_game_id,
            max_round_length_ms: s.max_round_length_ms,
        },
        replies,
    )
}

/// A submitted round action.  A message for an unknown session, or one the
/// sender has no part in, is answered with `ErrorEnd` and changes nothing.
/// A second submission in the same round is out of turn.  Otherwise the
/// action is recorded, and once both sides are in, the round resolves.
pub open spec fn spec_submit_action(
    s: ArenaV,
    conn: u64,
    game_id: u64,
    action: RoundAction,
    now: u64,
) -> Result<(ArenaV, Seq<ReplyV>), ProtocolError> {
    let i = game_index(s.arenas, game_id, 0);
    if i == s.arenas.len() || !conn_in_game(s.arenas[i], conn) {
        Ok(
            (
                s,
                seq![
                    ReplyV {
                        conn,
                        line: LineV::MultiplexedMessage { game_id, action: ActionV::ErrorEnd },
                    },
                ],
            ),
        )
    } else {
        let g = s.arenas[i];
        if g.left_conn == conn {
            if g.pending_left is Some {
                Err(ProtocolError::OutOfTurn)
            } else if g.pending_right is Some {
                Ok(apply_round(s, i, action, g.pending_right->0, now))
            } else {
                Ok(
                    (
                        ArenaV {
                            queue: s.queue,
                            arenas: s.arenas.update(i, GameV { pending_left: Some(action), ..g }),
                            next_game_id: s.next_game_id,
                            max_round_length_ms: s.max_round_length_ms,
                        },
                        Seq::empty(),
                    ),
                )
            }
        } else {
            if g.pending_right is Some {
                Err(ProtocolError::OutOfTurn)
            } else if g.pending_left is Some {
                Ok(apply_round(s, i, g.pending_left->0, action, now))
            } else {
                Ok(
                    (
                        ArenaV {
                            queue: s.queue,
                            arenas: s.arenas.update(i, GameV { pending_right: Some(action), ..g }),
                            next_game_id: s.next_game_id,
                            max_round_length_ms: s.max_round_length_ms,
                        },
                        Seq::empty(),
                    ),
                )
            }
        }
    }
}

/// A fired round timer: on a live session whose deadline has passed, a
/// `Timeout` stands in for every missing action and the round resolves; a
/// stale or early timer changes nothing.
pub open spec fn spec_handle_deadline(s: ArenaV, game_id: u64, now: u64) -> (
    ArenaV,
    Seq<ReplyV>,
) {
    let i = game_index(s.arenas, game_id, 0);
    if i == s.arenas.len() {
        (s, Seq::empty())
    } else {
        let g = s.arenas[i];
        if now < g.round_deadline {
            (s, Seq::empty())
        } else {
            let a = if g.pending_left is Some {
                g.pending_left->0
            } else {
                RoundAction::Timeout
            };
            let b = if g.pending_right is Some {
                g.pending_right->0
            } else {
                RoundAction::Timeout
            };
            apply_round(s, i, a, b, now)
        }
    }
}

/// The queue without a connection's entries.
pub open spec fn queue_without(q: Seq<WaitingV>, conn: u64) -> Seq<WaitingV>
    decreases q.len(),
{
    if q.len() == 0 {
        Seq::empty()
    } else {
        let r = queue_without(q.drop_last(), conn);
        if q.last().conn == conn {
            r
        } else {
            r.push(q.last())
        }
    }
}

/// A closed connection: it leaves the queue, and if it was mid-session the
/// surviving peer gets a terminal `ErrorEnd` and the session is dropped.
pub open spec fn spec_disconnect(s: ArenaV, conn: u64) -> (ArenaV, Seq<ReplyV>) {
    let q = queue_without(s.queue, conn);
    let i = conn_game_index(s.arenas, conn, 0);
    if i == s.arenas.len() {
        (
            ArenaV {
                queue: q,
                arenas: s.arenas,
                next_game_id: s.next_game_id,
                max_round_length_ms: s.max_round_length_ms,
            },
            Seq::empty(),
        )
    } else {
        let g = s.arenas[i];
        let peer = if g.left_conn == conn {
            g.right_conn
        } else {
            g.left_conn
        };
        (
            ArenaV {
                queue: q,
                arenas: s.arenas.remove(i),
                next_game_id: s.next_game_id,
                max_round_length_ms: s.max_round_length_ms,
            },
            seq![
                ReplyV {
                    conn: peer,
                    line: LineV::MultiplexedMessage {
                        game_id: g.game_id,
                        action: ActionV::ErrorEnd,
                    },
                },
            ],
        )
    }
}

// ---------------------------------------------------------------------------
// The invariant is preserved by every transition
// ---------------------------------------------------------------------------
/// Enqueueing a connection that neither waits nor plays keeps the registry
/// well formed.
proof fn lemma_wf_enqueue(s: ArenaV, conn: u64, nickname: Seq<char>)
    requires
        wf_arena(s),
        !conn_busy(s, conn),
    ensures
        wf_arena(
            ArenaV {
                queue: s.queue.push(WaitingV { conn, nickname }),
                arenas: s.arenas,
                next_game_id: s.next_game_id,
                max_round_length_ms: s.max_round_length_ms,
            },
        ),
{
    let q = s.queue.push(WaitingV { conn, nickname });
    assert forall|i: int, j: int|
        #![trigger q[i], q[j]]
        0 <= i < j < q.len() implies q[i].conn != q[j].conn by {
        if j == s.queue.len() {
            assert(q[i] == s.queue[i]);
            assert(!conn_waiting(s.queue, conn));
        } else {
            assert(q[i] == s.queue[i] && q[j] == s.queue[j]);
        }
    }
    assert forall|i: int| 0 <= i < q.len() implies !conn_in_arenas(
        s.arenas,
        (#[trigger] q[i]).conn,
    ) by {
        if i < s.queue.len() {
            assert(q[i] == s.queue[i]);
        }
    }
}

/// Matching keeps the registry well formed.
proof fn lemma_wf_find_or_create(s: ArenaV, now: u64)
    requires
        wf_arena(s),
        s.next_game_id < u64::MAX,
    ensures
        wf_arena(spec_find_or_create(s, now).0),
{
    if s.queue.len() >= 2 {
        let w0 = s.queue[0];
        let w1 = s.queue[1];
        let g = paired_game(s, w0, w1, now);
        let s1 = spec_find_or_create(s, now).0;
        let n = s.arenas.len() as int;
        assert(!conn_in_arenas(s.arenas, w0.conn));
        assert(!conn_in_arenas(s.arenas, w1.conn));
        assert forall|i: int| 0 <= i < s1.arenas.len() implies wf_game(
            #[trigger] s1.arenas[i],
            s1.next_game_id,
        ) by {
            if i < n {
                assert(s1.arenas[i] == s.arenas[i]);
                assert(wf_game(s.arenas[i], s.next_game_id));
            } else {
                assert(s1.arenas[i] == g);
            }
        }
        assert forall|i: int, j: int|
            #![trigger s1.arenas[i], s1.arenas[j]]
            0 <= i < j < s1.arenas.len() implies s1.arenas[i].game_id != s1.arenas[j].game_id
            && s1.arenas[i].left_conn != s1.arenas[j].left_conn && s1.arenas[i].left_conn
            != s1.arenas[j].right_conn && s1.arenas[i].right_conn != s1.arenas[j].left_conn
            && s1.arenas[i].right_conn != s1.arenas[j].right_conn by {
            if j < n {
                assert(s1.arenas[i] == s.arenas[i] && s1.arenas[j] == s.arenas[j]);
            } else {
                assert(s1.arenas[i] == s.arenas[i] && s1.arenas[j] == g);
                assert(wf_game(s.arenas[i], s.next_game_id));
                assert(!conn_in_game(s.arenas[i], w0.conn));
                assert(!conn_in_game(s.arenas[i], w1.conn));
            }
        }
        assert forall|i: int, j: int|
            #![trigger s1.queue[i], s1.queue[j]]
            0 <= i < j < s1.queue.len() implies s1.queue[i].conn != s1.queue[j].conn by {
            assert(s1.queue[i] == s.queue[i + 2] && s1.queue[j] == s.queue[j + 2]);
        }
        assert forall|i: int| 0 <= i < s1.queue.len() implies !conn_in_arenas(
            s1.arenas,
            (#[trigger] s1.queue[i]).conn,
        ) by {
            assert(s1.queue[i] == s.queue[i + 2]);
            let c = s.queue[i + 2].conn;
            assert(!conn_in_arenas(s.arenas, c));
            assert(c != w0.conn && c != w1.conn);
            assert forall|k: int| 0 <= k < s1.arenas.len() implies !conn_in_game(
                #[trigger] s1.arenas[k],
                c,
            ) by {
                if k < n {
                    assert(s1.arenas[k] == s.arenas[k]);
                    assert(!conn_in_game(s.arenas[k], c));
                } else {
                    assert(s1.arenas[k] == g);
                }
            }
        }
    }
}

/// An accepted matchmaking request keeps the registry well formed.
pub proof fn lemma_wf_request_new_game(s: ArenaV, conn: u64, nickname: Seq<char>, now: u64)
    requires
        wf_arena(s),
        s.next_game_id < u64::MAX,
        spec_request_new_game(s, conn, nickname, now) is Ok,
    ensures
        wf_arena(spec_request_new_game(s, conn, nickname, now)->Ok_0.0),
{
    let s1 = ArenaV {
        queue: s.queue.push(WaitingV { conn, nickname }),
        arenas: s.arenas,
        next_game_id: s.next_game_id,
        max_round_length_ms: s.max_round_length_ms,
    };
    lemma_wf_enqueue(s, conn, nickname);
    lemma_wf_find_or_create(s1, now);
}

/// A resolved round keeps the registry well formed, whether the session goes
/// on or is dropped.
pub proof fn lemma_wf_apply_round(s: ArenaV, i: int, a: RoundAction, b: RoundAction, now: u64)
    requires
        wf_arena(s),
        0 <= i < s.arenas.len(),
    ensures
        wf_arena(apply_round(s, i, a, b, now).0),
{
    let g = s.arenas[i];
    let s1 = apply_round(s, i, a, b, now).0;
    if round_outcome_of(g, a, b) is Continue {
        let g1 = game_after_round(g, a, b, now, s.max_round_length_ms);
        assert(g1.left_player.alive && g1.right_player.alive);
        assert forall|k: int| 0 <= k < s1.arenas.len() implies wf_game(
            #[trigger] s1.arenas[k],
            s1.next_game_id,
        ) by {
            if k != i {
                assert(s1.arenas[k] == s.arenas[k]);
            }
        }
        assert forall|k: int, j: int|
            #![trigger s1.arenas[k], s1.arenas[j]]
            0 <= k < j < s1.arenas.len() implies s1.arenas[k].game_id != s1.arenas[j].game_id
            && s1.arenas[k].left_conn != s1.arenas[j].left_conn && s1.arenas[k].left_conn
            != s1.arenas[j].right_conn && s1.arenas[k].right_conn != s1.arenas[j].left_conn
            && s1.arenas[k].right_conn != s1.arenas[j].right_conn by {
            assert(s1.arenas[k] == if k == i {
                g1
            } else {
                s.arenas[k]
            });
            assert(s1.arenas[j] == if j == i {
                g1
            } else {
                s.arenas[j]
            });
        }
        assert forall|k: int| 0 <= k < s1.queue.len() implies !conn_in_arenas(
            s1.arenas,
            (#[trigger] s1.queue[k]).conn,
        ) by {
            let c = s.queue[k].conn;
            assert(!conn_in_arenas(s.arenas, c));
            assert forall|m: int| 0 <= m < s1.arenas.len() implies !conn_in_game(
                #[trigger] s1.arenas[m],
                c,
            ) by {
                assert(!conn_in_game(s.arenas[m], c));
                if m == i {
                    assert(s1.arenas[m] == g1);
                } else {
                    assert(s1.arenas[m] == s.arenas[m]);
                }
            }
        }
    } else {
        assert forall|k: int| 0 <= k < s1.arenas.len() implies wf_game(
            #[trigger] s1.arenas[k],
            s1.next_game_id,
        ) by {
            if k < i {
                assert(s1.arenas[k] == s.arenas[k]);
            } else {
                assert(s1.arenas[k] == s.arenas[k + 1]);
            }
        }
        assert forall|k: int, j: int|
            #![trigger s1.arenas[k], s1.arenas[j]]
            0 <= k < j < s1.arenas.len() implies s1.arenas[k].game_id != s1.arenas[j].game_id
            && s1.arenas[k].left_conn != s1.arenas[j].left_conn && s1.arenas[k].left_conn
            != s1.arenas[j].right_conn && s1.arenas[k].right_conn != s1.arenas[j].left_conn
            && s1.arenas[k].right_conn != s1.arenas[j].right_conn by {
            let k0 = if k < i {
                k
            } else {
                k + 1
            };
            let j0 = if j < i {
                j
            } else {
                j + 1
            };
            assert(s1.arenas[k] == s.arenas[k0] && s1.arenas[j] == s.arenas[j0]);
        }
        assert forall|k: int| 0 <= k < s1.queue.len() implies !conn_in_arenas(
            s1.arenas,
            (#[trigger] s1.queue[k]).conn,
        ) by {
            let c = s.queue[k].conn;
            assert(!conn_in_arenas(s.arenas, c));
            assert forall|m: int| 0 <= m < s1.arenas.len() implies !conn_in_game(
                #[trigger] s1.arenas[m],
                c,
            ) by {
                let m0 = if m < i {
                    m
                } else {
                    m + 1
                };
                assert(s1.arenas[m] == s.arenas[m0]);
                assert(!conn_in_game(s.arenas[m0], c));
            }
        }
    }
}

/// A recorded pending action keeps the registry well formed.
proof fn lemma_wf_record_pending(s: ArenaV, i: int, g1: GameV)
    requires
        wf_arena(s),
        0 <= i < s.arenas.len(),
        g1.game_id == s.arenas[i].game_id,
        g1.left_conn == s.arenas[i].left_conn,
        g1.right_conn == s.arenas[i].right_conn,
        g1.left_player.alive == s.arenas[i].left_player.alive,
        g1.right_player.alive == s.arenas[i].right_player.alive,
        !(g1.pending_left is Some && g1.pending_right is Some),
    ensures
        wf_arena(
            ArenaV {
                queue: s.queue,
                arenas: s.arenas.update(i, g1),
                next_game_id: s.next_game_id,
                max_round_length_ms: s.max_round_length_ms,
            },
        ),
{
    let s1 = ArenaV {
        queue: s.queue,
        arenas: s.arenas.update(i, g1),
        next_game_id: s.next_game_id,
        max_round_length_ms: s.max_round_length_ms,
    };
    assert forall|k: int| 0 <= k < s1.arenas.len() implies wf_game(
        #[trigger] s1.arenas[k],
        s1.next_game_id,
    ) by {
        if k != i {
            assert(s1.arenas[k] == s.arenas[k]);
        }
    }
    assert forall|k: int, j: int|
        #![trigger s1.arenas[k], s1.arenas[j]]
        0 <= k < j < s1.arenas.len() implies s1.arenas[k].game_id != s1.arenas[j].game_id
        && s1.arenas[k].left_conn != s1.arenas[j].left_conn && s1.arenas[k].left_conn
        != s1.arenas[j].right_conn && s1.arenas[k].right_conn != s1.arenas[j].left_conn
        && s1.arenas[k].right_conn != s1.arenas[j].right_conn by {
        assert(s1.arenas[k] == if k == i {
            g1
        } else {
            s.arenas[k]
        });
        assert(s1.arenas[j] == if j == i {
            g1
        } else {
            s.arenas[j]
        });
    }
    assert forall|k: int| 0 <= k < s1.queue.len() implies !conn_in_arenas(
        s1.arenas,
        (#[trigger] s1.queue[k]).conn,
    ) by {
        let c = s.queue[k].conn;
        assert(!conn_in_arenas(s.arenas, c));
        assert forall|m: int| 0 <= m < s1.arenas.len() implies !conn_in_game(
            #[trigger] s1.arenas[m],
            c,
        ) by {
            assert(!conn_in_game(s.arenas[m], c));
            if m == i {
                assert(s1.arenas[m] == g1);
            } else {
                assert(s1.arenas[m] == s.arenas[m]);
            }
        }
    }
}

/// A submitted action keeps the registry well formed.
pub proof fn lemma_wf_submit_action(
    s: ArenaV,
    conn: u64,
    game_id: u64,
    action: RoundAction,
    now: u64,
)
    requires
        wf_arena(s),
    ensures
        spec_submit_action(s, conn, game_id, action, now) is Ok ==> wf_arena(
            spec_submit_action(s, conn, game_id, action, now)->Ok_0.0,
        ),
{
    let i = game_index(s.arenas, game_id, 0);
    lemma_game_index(s.arenas, game_id, 0);
    if i == s.arenas.len() || !conn_in_game(s.arenas[i], conn) {
    } else {
        let g = s.arenas[i];
        if g.left_conn == conn {
            if g.pending_right is Some {
                lemma_wf_apply_round(s, i, action, g.pending_right->0, now);
            } else {
                lemma_wf_record_pending(s, i, GameV { pending_left: Some(action), ..g });
            }
        } else {
            if g.pending_left is Some {
                lemma_wf_apply_round(s, i, g.pending_left->0, action, now);
            } else {
                lemma_wf_record_pending(s, i, GameV { pending_right: Some(action), ..g });
            }
        }
    }
}

/// A fired round timer keeps the registry well formed.
pub proof fn lemma_wf_handle_deadline(s: ArenaV, game_id: u64, now: u64)
    requires
        wf_arena(s),
    ensures
        wf_arena(spec_handle_deadline(s, game_id, now).0),
{
    let i = game_index(s.arenas, game_id, 0);
    lemma_game_index(s.arenas, game_id, 0);
    if i < s.arenas.len() && now >= s.arenas[i].round_deadline {
        let g = s.arenas[i];
        let a = if g.pending_left is Some {
            g.pending_left->0
        } else {
            RoundAction::Timeout
        };
        let b = if g.pending_right is Some {
            g.pending_right->0
        } else {
            RoundAction::Timeout
        };
        lemma_wf_apply_round(s, i, a, b, now);
    }
}

/// The pruned queue holds exactly the other connections' entries, in order,
/// and stays duplicate-free.
proof fn lemma_queue_without_props(q: Seq<WaitingV>, conn: u64)
    requires
        forall|i: int, j: int|
            #![trigger q[i], q[j]]
            0 <= i < j < q.len() ==> q[i].conn != q[j].conn,
    ensures
        forall|j: int|
            0 <= j < queue_without(q, conn).len() ==> (#[trigger] queue_without(q, conn)[j]).conn
                != conn,
        forall|j: int|
            0 <= j < queue_without(q, conn).len() ==> conn_waiting(
                q,
                (#[trigger] queue_without(q, conn)[j]).conn,
            ),
        forall|i: int, j: int|
            #![trigger queue_without(q, conn)[i], queue_without(q, conn)[j]]
            0 <= i < j < queue_without(q, conn).len() ==> queue_without(q, conn)[i].conn
                != queue_without(q, conn)[j].conn,
    decreases q.len(),
{
    if q.len() > 0 {
        let qd = q.drop_last();
        assert forall|i: int, j: int|
            #![trigger qd[i], qd[j]]
            0 <= i < j < qd.len() implies qd[i].conn != qd[j].conn by {
            assert(qd[i] == q[i] && qd[j] == q[j]);
        }
        lemma_queue_without_props(qd, conn);
        let r = queue_without(q, conn);
        let rd = queue_without(qd, conn);
        assert forall|j: int| 0 <= j < r.len() implies conn_waiting(
            q,
            (#[trigger] r[j]).conn,
        ) by {
            if j < rd.len() {
                assert(r[j] == rd[j]);
                let w = choose|k: int| 0 <= k < qd.len() && (#[trigger] qd[k]).conn == rd[j].conn;
                assert(q[w].conn == rd[j].conn);
            } else {
                assert(r[j] == q.last());
                assert(q[q.len() - 1].conn == r[j].conn);
            }
        }
        if q.last().conn != conn {
            assert forall|i: int, j: int|
                #![trigger r[i], r[j]]
                0 <= i < j < r.len() implies r[i].conn != r[j].conn by {
                if j < rd.len() {
                    assert(r[i] == rd[i] && r[j] == rd[j]);
                } else {
                    assert(r[i] == rd[i] && r[j] == q.last());
                    assert(conn_waiting(qd, rd[i].conn));
                    let w = choose|k: int|
                        0 <= k < qd.len() && (#[trigger] qd[k]).conn == rd[i].conn;
                    assert(q[w].conn == rd[i].conn);
                    assert(q[w].conn != q[q.len() - 1].conn);
                }
            }
        }
    }
}

/// A disconnect keeps the registry well formed.
pub proof fn lemma_wf_disconnect(s: ArenaV, conn: u64)
    requires
        wf_arena(s),
    ensures
        wf_arena(spec_disconnect(s, conn).0),
{
    lemma_queue_without_props(s.queue, conn);
    let q = queue_without(s.queue, conn);
    let i = conn_game_index(s.arenas, conn, 0);
    lemma_conn_game_index(s.arenas, conn, 0);
    let s1 = spec_disconnect(s, conn).0;
    assert forall|j: int| 0 <= j < q.len() implies !conn_in_arenas(
        s.arenas,
        (#[trigger] q[j]).conn,
    ) by {
        assert(conn_waiting(s.queue, q[j].conn));
        let w = choose|k: int| 0 <= k < s.queue.len() && (#[trigger] s.queue[k]).conn == q[j].conn;
        assert(!conn_in_arenas(s.arenas, s.queue[w].conn));
    }
    if i == s.arenas.len() {
    } else {
        assert forall|k: int| 0 <= k < s1.arenas.len() implies wf_game(
            #[trigger] s1.arenas[k],
            s1.next_game_id,
        ) by {
            let k0 = if k < i {
                k
            } else {
                k + 1
            };
            assert(s1.arenas[k] == s.arenas[k0]);
        }
        assert forall|k: int, j: int|
            #![trigger s1.arenas[k], s1.arenas[j]]
            0 <= k < j < s1.arenas.len() implies s1.arenas[k].game_id != s1.arenas[j].game_id
            && s1.arenas[k].left_conn != s1.arenas[j].left_conn && s1.arenas[k].left_conn
            != s1.arenas[j].right_conn && s1.arenas[k].right_conn != s1.arenas[j].left_conn
            && s1.arenas[k].right_conn != s1.arenas[j].right_conn by {
            let k0 = if k < i {
                k
            } else {
                k + 1
            };
            let j0 = if j < i {
                j
            } else {
                j + 1
            };
            assert(s1.arenas[k] == s.arenas[k0] && s1.arenas[j] == s.arenas[j0]);
        }
        assert forall|k: int| 0 <= k < s1.queue.len() implies !conn_in_arenas(
            s1.arenas,
            (#[trigger] s1.queue[k]).conn,
        ) by {
            let c = s1.queue[k].conn;
            assert(conn_waiting(s.queue, c));
            let w = choose|m: int| 0 <= m < s.queue.len() && (#[trigger] s.queue[m]).conn == c;
            assert(!conn_in_arenas(s.arenas, c));
            assert forall|m: int| 0 <= m < s1.arenas.len() implies !conn_in_game(
                #[trigger] s1.arenas[m],
                c,
            ) by {
                let m0 = if m < i {
                    m
                } else {
                    m + 1
                };
                assert(s1.arenas[m] == s.arenas[m0]);
                assert(!conn_in_game(s.arenas[m0], c));
            }
        }
    }
}

// ---------------------------------------------------------------------------
// The registry
// ---------------------------------------------------------------------------
/// A copy of a waiting-queue entry.
fn clone_waiting(w: &WaitingPlayer) -> (r: WaitingPlayer)
    ensures
        r@ == w@,
{
    WaitingPlayer { conn: w.conn, nickname: w.nickname.clone() }
}

impl ArenaServer {
    /// An empty registry that grants the default round length.
    pub fn new() -> (r: ArenaServer)
        ensures
            r@.queue.len() == 0,
            r@.arenas.len() == 0,
            r@.next_game_id == 0,
            r@.max_round_length_ms == DEFAULT_ROUND_LENGTH_MS,
            wf_arena(r@),
    {
        let r = ArenaServer {
            waiting_queue: Vec::new(),
            arenas: Vec::new(),
            next_game_id: 0,
            max_round_length_ms: DEFAULT_ROUND_LENGTH_MS,
        };
        proof {
            assert(r@.queue =~= Seq::<WaitingV>::empty());
            assert(r@.arenas =~= Seq::<GameV>::empty());
        }
        r
    }

    /// First position of the session with this id, or the table's length.
    fn find_game(&self, game_id: u64) -> (r: usize)
        ensures
            r as int == game_index(self@.arenas, game_id, 0),
    {
        let n = self.arenas.len();
        let mut i: usize = 0;
        while i < n
            invariant
                0 <= i <= n,
                n == self.arenas@.len(),
                forall|j: int| 0 <= j < i ==> (#[trigger] self@.arenas[j]).game_id != game_id,
            decreases n - i,
        {
            if self.arenas[i].game_id == game_id {
                proof {
                    lemma_game_index_is(self@.arenas, game_id, 0, i as int);
                }
                return i;
            }
            i += 1;
        }
        proof {
            lemma_game_index_none(self@.arenas, game_id, 0);
        }
        n
    }

    /// First position of a session this connection plays in, or the table's
    /// length.
    fn find_conn_game(&self, conn: u64) -> (r: usize)
        ensures
            r as int == conn_game_index(self@.arenas, conn, 0),
    {
        let n = self.arenas.len();
        let mut i: usize = 0;
        while i < n
            invariant
                0 <= i <= n,
                n == self.arenas@.len(),
                forall|j: int| 0 <= j < i ==> !conn_in_game(#[trigger] self@.arenas[j], conn),
            decreases n - i,
        {
            if self.arenas[i].left_conn == conn || self.arenas[i].right_conn == conn {
                proof {
                    lemma_conn_game_index_is(self@.arenas, conn, 0, i as int);
                }
                return i;
            }
            i += 1;
        }
        proof {
            lemma_conn_game_index_none(self@.arenas, conn, 0);
        }
        n
    }

    /// Whether the connection waits in the queue.
    fn is_waiting(&self, conn: u64) -> (r: bool)
        ensures
            r == conn_waiting(self@.queue, conn),
    {
        let n = self.waiting_queue.len();
        let mut i: usize = 0;
        while i < n
            invariant
                0 <= i <= n,
                n == self.waiting_queue@.len(),
                forall|j: int| 0 <= j < i ==> (#[trigger] self@.queue[j]).conn != conn,
            decreases n - i,
        {
            if self.waiting_queue[i].conn == conn {
                assert(self@.queue[i as int].conn == conn);
                return true;
            }
            i += 1;
        }
        false
    }

    /// Pairs the two oldest waiting players into a fresh session, telling
    /// each the other's name; with fewer than two waiting it does nothing.
    pub fn find_or_create_arena(&mut self, now: u64) -> (r: Vec<Reply>)
        requires
            wf_arena(old(self)@),
            old(self)@.next_game_id < u64::MAX,
        ensures
            final(self)@ == spec_find_or_create(old(self)@, now).0,
            replies_view(r@) == spec_find_or_create(old(self)@, now).1,
            wf_arena(final(self)@),
    {
        proof {
            lemma_wf_find_or_create(old(self)@, now);
        }
        if self.waiting_queue.len() < 2 {
            return Vec::new();
        }
        let w0 = self.waiting_queue.remove(0);
        let w1 = self.waiting_queue.remove(0);
        let id = self.next_game_id;
        self.next_game_id = id + 1;
        let g = GameState {
            game_id: id,
            left_player: PlayerState { nickname: w0.nickname.clone(), ammo_bag: 0, alive: true },
            right_player: PlayerState { nickname: w1.nickname.clone(), ammo_bag: 0, alive: true },
            left_conn: w0.conn,
            right_conn: w1.conn,
            pending_left: None,
            pending_right: None,
            round_deadline: sat_add_exec(now, self.max_round_length_ms),
        };
        self.arenas.push(g);
        let mut r: Vec<Reply> = Vec::new();
        r.push(
            Reply {
                conn: w0.conn,
                line: ParsedLine::MultiplexedMessage {
                    game_id: id,
                    action: Action::NewGame { opponent: w1.nickname },
                },
            },
        );
        r.push(
            Reply {
                conn: w1.conn,
                line: ParsedLine::MultiplexedMessage {
                    game_id: id,
                    action: Action::NewGame { opponent: w0.nickname },
                },
            },
        );
        proof {
            let s = old(self)@;
            assert(self@.queue =~= s.queue.subrange(2, s.queue.len() as int));
            assert(self@.arenas =~= s.arenas.push(paired_game(s, s.queue[0], s.queue[1], now)));
            assert(replies_view(r@) =~= spec_find_or_create(s, now).1);
        }
        r
    }

    /// A matchmaking request from an established connection: a player that
    /// already waits or plays is rejected with `DuplicateRequest`; everyone
    /// else joins the tail of the queue, and the two oldest are paired as
    /// soon as two are waiting.
    pub fn request_new_game(&mut self, conn: u64, nickname: String, now: u64) -> (r: Result<
        Vec<Reply>,
        ProtocolError,
    >)
        requires
            wf_arena(old(self)@),
            old(self)@.next_game_id < u64::MAX,
        ensures
            ({
                let t = spec_request_new_game(old(self)@, conn, nickname@, now);
                match r {
                    Ok(replies) => t is Ok && final(self)@ == t->Ok_0.0 && replies_view(replies@)
                        == t->Ok_0.1,
                    Err(e) => t == Err::<(ArenaV, Seq<ReplyV>), ProtocolError>(e) && *final(self)
                        == *old(self),
                }
            }),
            wf_arena(final(self)@),
    {
        let waiting = self.is_waiting(conn);
        let playing = self.find_conn_game(conn);
        proof {
            lemma_conn_game_index(self@.arenas, conn, 0);
        }
        if waiting || playing < self.arenas.len() {
            proof {
                if playing < self.arenas.len() {
                    assert(conn_in_game(self@.arenas[playing as int], conn));
                }
            }
            return Err(ProtocolError::DuplicateRequest);
        }
        proof {
            assert(!conn_busy(old(self)@, conn));
            lemma_wf_enqueue(old(self)@, conn, nickname@);
        }
        self.waiting_queue.push(WaitingPlayer { conn, nickname });
        proof {
            let s = old(self)@;
            assert(self@.queue =~= s.queue.push(WaitingV { conn, nickname: nickname@ }));
            assert(self@.arenas =~= s.arenas);
        }
        let replies = self.find_or_create_arena(now);
        Ok(replies)
    }

    /// A round action submitted for a session.  A message for an unknown
    /// session, or one the sender has no part in, is answered with
    /// `ErrorEnd`; a second submission in the same round is rejected as
    /// `OutOfTurn`; otherwise the action is recorded and, once both sides
    /// are in, the round resolves (see `round_replies` for what is sent).
    pub fn submit_action(&mut self, conn: u64, game_id: u64, action: RoundAction, now: u64) -> (r:
        Result<Vec<Reply>, ProtocolError>)
        requires
            wf_arena(old(self)@),
        ensures
            ({
                let t = spec_submit_action(old(self)@, conn, game_id, action, now);
                match r {
                    Ok(replies) => t is Ok && final(self)@ == t->Ok_0.0 && replies_view(replies@)
                        == t->Ok_0.1,
                    Err(e) => t == Err::<(ArenaV, Seq<ReplyV>), ProtocolError>(e) && *final(self)
                        == *old(self),
                }
            }),
            wf_arena(final(self)@),
    {
        proof {
            lemma_wf_submit_action(old(self)@, conn, game_id, action, now);
        }
        let i = self.find_game(game_id);
        proof {
            lemma_game_index(self@.arenas, game_id, 0);
        }
        let n = self.arenas.len();
        if i == n || (self.arenas[i].left_conn != conn && self.arenas[i].right_conn != conn) {
            let mut replies: Vec<Reply> = Vec::new();
            replies.push(
                Reply {
                    conn,
                    line: ParsedLine::MultiplexedMessage { game_id, action: Action::ErrorEnd },
                },
            );
            proof {
                assert(replies_view(replies@) =~= spec_submit_action(
                    old(self)@,
                    conn,
                    game_id,
                    action,
                    now,
                )->Ok_0.1);
            }
            return Ok(replies);
        }
        let left = self.arenas[i].left_conn == conn;
        if left {
            if self.arenas[i].pending_left.is_some() {
                return Err(ProtocolError::OutOfTurn);
            }
            let pending = self.arenas[i].pending_right;
            match pending {
                Some(b) => self.resolve_at(i, action, b, now),
                None => {
                    let mut g = self.arenas.remove(i);
                    g.pending_left = Some(action);
                    self.arenas.insert(i, g);
                    proof {
                        let s = old(self)@;
                        assert(self@.arenas =~= s.arenas.update(
                            i as int,
                            GameV { pending_left: Some(action), ..s.arenas[i as int] },
                        ));
                        assert(self@.queue =~= s.queue);
                    }
                    Ok(Vec::new())
                },
            }
        } else {
            if self.arenas[i].pending_right.is_some() {
                return Err(ProtocolError::OutOfTurn);
            }
            let pending = self.arenas[i].pending_left;
            match pending {
                Some(a) => self.resolve_at(i, a, action, now),
                None => {
                    let mut g = self.arenas.remove(i);
                    g.pending_right = Some(action);
                    self.arenas.insert(i, g);
                    proof {
                        let s = old(self)@;
                        assert(self@.arenas =~= s.arenas.update(
                            i as int,
                            GameV { pending_right: Some(action), ..s.arenas[i as int] },
                        ));
                        assert(self@.queue =~= s.queue);
                    }
                    Ok(Vec::new())
                },
            }
        }
    }

    /// Resolves the round of the session at table position `i`, updating the
    /// table.
    fn resolve_at(&mut self, i: usize, a: RoundAction, b: RoundAction, now: u64) -> (r: Result<
        Vec<Reply>,
        ProtocolError,
    >)
        requires
            0 <= i < old(self)@.arenas.len(),
        ensures
            r is Ok,
            final(self)@ == apply_round(old(self)@, i as int, a, b, now).0,
            replies_view(r->Ok_0@) == apply_round(old(self)@, i as int, a, b, now).1,
    {
        let max_ms = self.max_round_length_ms;
        let mut g = self.arenas.remove(i);
        let (replies, outcome) = g.resolve_round(a, b, now, max_ms);
        if outcome == RoundOutcome::Continue {
            self.arenas.insert(i, g);
            proof {
                let s = old(self)@;
                assert(self@.arenas =~= s.arenas.update(
                    i as int,
                    game_after_round(s.arenas[i as int], a, b, now, s.max_round_length_ms),
                ));
                assert(self@.queue =~= s.queue);
            }
        } else {
            proof {
                let s = old(self)@;
                assert(self@.arenas =~= s.arenas.remove(i as int));
                assert(self@.queue =~= s.queue);
            }
        }
        Ok(replies)
    }

    /// A fired round timer for a session: once the deadline has passed, a
    /// `Timeout` stands in for every action not yet submitted and the round
    /// resolves.  A timer for a finished session, or one that fires early,
    /// does nothing.
    pub fn handle_deadline(&mut self, game_id: u64, now: u64) -> (r: Vec<Reply>)
        requires
            wf_arena(old(self)@),
        ensures
            final(self)@ == spec_handle_deadline(old(self)@, game_id, now).0,
            replies_view(r@) == spec_handle_deadline(old(self)@, game_id, now).1,
            wf_arena(final(self)@),
    {
        proof {
            lemma_wf_handle_deadline(old(self)@, game_id, now);
        }
        let i = self.find_game(game_id);
        proof {
            lemma_game_index(self@.arenas, game_id, 0);
        }
        if i == self.arenas.len() {
            proof {
                assert(replies_view(Seq::<Reply>::empty()) =~= Seq::<ReplyV>::empty());
            }
            return Vec::new();
        }
        if now < self.arenas[i].round_deadline {
            proof {
                assert(replies_view(Seq::<Reply>::empty()) =~= Seq::<ReplyV>::empty());
            }
            return Vec::new();
        }
        let a = match self.arenas[i].pending_left {
            Some(x) => x,
            None => RoundAction::Timeout,
        };
        let b = match self.arenas[i].pending_right {
            Some(x) => x,
            None => RoundAction::Timeout,
        };
        let r = self.resolve_at(i, a, b, now);
        match r {
            Ok(replies) => replies,
            Err(_) => Vec::new(),
        }
    }

    /// A closed connection: its queue entry goes away silently (no peer
    /// existed yet); a session it played in is dropped, and the surviving
    /// peer is told at once with a terminal `ErrorEnd`.
    pub fn disconnect(&mut self, conn: u64) -> (r: Vec<Reply>)
        requires
            wf_arena(old(self)@),
        ensures
            final(self)@ == spec_disconnect(old(self)@, conn).0,
            replies_view(r@) == spec_disconnect(old(self)@, conn).1,
            wf_arena(final(self)@),
    {
        proof {
            lemma_wf_disconnect(old(self)@, conn);
        }
        let n = self.waiting_queue.len();
        let mut kept: Vec<WaitingPlayer> = Vec::new();
        let mut idx: usize = 0;
        while idx < n
            invariant
                0 <= idx <= n,
                n == self.waiting_queue@.len(),
                *self == *old(self),
                replies_view(Seq::<Reply>::empty()) == Seq::<ReplyV>::empty(),
                kept@.map_values(|w: WaitingPlayer| w@) == queue_without(
                    self@.queue.take(idx as int),
                    conn,
                ),
            decreases n - idx,
        {
            let keep = self.waiting_queue[idx].conn != conn;
            proof {
                assert(self@.queue.take(idx + 1).drop_last() =~= self@.queue.take(idx as int));
                assert(self@.queue.take(idx + 1).last() == self@.queue[idx as int]);
            }
            if keep {
                let w = clone_waiting(&self.waiting_queue[idx]);
                kept.push(w);
                proof {
                    assert(kept@.map_values(|w: WaitingPlayer| w@) =~= queue_without(
                        self@.queue.take(idx + 1),
                        conn,
                    ));
                }
            } else {
                proof {
                    assert(kept@.map_values(|w: WaitingPlayer| w@) =~= queue_without(
                        self@.queue.take(idx + 1),
                        conn,
                    ));
                }
            }
            idx += 1;
        }
        self.waiting_queue = kept;
        proof {
            assert(old(self)@.queue.take(n as int) =~= old(self)@.queue);
            assert(self@.queue == queue_without(old(self)@.queue, conn));
            assert(self@.arenas =~= old(self)@.arenas);
        }
        let gi = self.find_conn_game(conn);
        proof {
            lemma_conn_game_index(self@.arenas, conn, 0);
        }
        if gi == self.arenas.len() {
            proof {
                assert(replies_view(Seq::<Reply>::empty()) =~= Seq::<ReplyV>::empty());
            }
            return Vec::new();
        }
        let peer = if self.arenas[gi].left_conn == conn {
            self.arenas[gi].right_conn
        } else {
            self.arenas[gi].left_conn
        };
        let id = self.arenas[gi].game_id;
        let _ = self.arenas.remove(gi);
        let mut r: Vec<Reply> = Vec::new();
        r.push(
            Reply {
                conn: peer,
                line: ParsedLine::MultiplexedMessage { game_id: id, action: Action::ErrorEnd },
            },
        );
        proof {
            let s = old(self)@;
            assert(self@.arenas =~= s.arenas.remove(conn_game_index(s.arenas, conn, 0)));
            assert(replies_view(r@) =~= spec_disconnect(s, conn).1);
        }
        r
    }
}

// ---------------------------------------------------------------------------
// The per-connection service
// ---------------------------------------------------------------------------
/// What an established connection may send, routed into the registry.
pub open spec fn spec_service_call(
    conn: u64,
    nickname: Seq<char>,
    s: ArenaV,
    line: LineV,
    now: u64,
) -> Result<(ArenaV, Seq<ReplyV>), ProtocolError> {
    match line {
        LineV::RequestNewGame => spec_request_new_game(s, conn, nickname, now),
        LineV::MultiplexedMessage { game_id, action } => match action {
            ActionV::PlayerInput(ra) => spec_submit_action(s, conn, game_id, ra, now),
            _ => Err(ProtocolError::OutOfTurn),
        },
        _ => Err(ProtocolError::OutOfTurn),
    }
}

/// One admitted connection's view of the arena: it answers for a single
/// established connection and routes its traffic into the shared registry.
pub struct ArenaService {
    /// The connection this service answers for.
    pub conn: u64,
    /// The admitted player's name, recorded by the handshake.
    pub nickname: String,
}

impl ArenaService {
    /// A service for a freshly admitted connection.
    pub fn new(conn: u64, nickname: String) -> (r: ArenaService)
        ensures
            r.conn == conn,
            r.nickname == nickname,
    {
        ArenaService { conn, nickname }
    }

    /// Routes one message from the established connection: `RequestNewGame`
    /// queues the player, a `PlayerInput` session message submits a round
    /// action, and anything else — a second hello, a server-only message, or
    /// a session action only the server may send — is out of turn and fatal
    /// to the connection.  An `Err` closes the connection; the caller then
    /// reports the close through [`ArenaServer::disconnect`].
    pub fn call(&self, server: &mut ArenaServer, req: ParsedLine, now: u64) -> (r: Result<
        Vec<Reply>,
        ProtocolError,
    >)
        requires
            wf_arena(old(server)@),
            old(server)@.next_game_id < u64::MAX,
        ensures
            ({
                let t = spec_service_call(self.conn, self.nickname@, old(server)@, req@, now);
                match r {
                    Ok(replies) => t is Ok && final(server)@ == t->Ok_0.0 && replies_view(
                        replies@,
                    ) == t->Ok_0.1,
                    Err(e) => t == Err::<(ArenaV, Seq<ReplyV>), ProtocolError>(e) && *final(server)
                        == *old(server),
                }
            }),
            wf_arena(final(server)@),
    {
        match req {
            ParsedLine::RequestNewGame => server.request_new_game(
                self.conn,
                self.nickname.clone(),
                now,
            ),
            ParsedLine::MultiplexedMessage { game_id, action } => match action {
                Action::PlayerInput(ra) => server.submit_action(self.conn, game_id, ra, now),
                _ => Err(ProtocolError::OutOfTurn),
            },
            _ => Err(ProtocolError::OutOfTurn),
        }
    }
}

// ---------------------------------------------------------------------------
// Matchmaking is first-come, first-served
// ---------------------------------------------------------------------------
/// Law: matchmaking is strict FIFO with strictly increasing session ids.
/// Three requests arriving in order A, B, C on an arena with an empty queue
/// pair A and B — A, the older, on the left — into the session numbered
/// `next_game_id`, while C waits; the counter moves past that id, and every
/// session the registry ever holds stays below the counter, so any later
/// pairing gets a strictly larger id.
pub proof fn lemma_fifo_matchmaking(
    s0: ArenaV,
    ca: u64,
    cb: u64,
    cc: u64,
    na: Seq<char>,
    nb: Seq<char>,
    nc: Seq<char>,
    now1: u64,
    now2: u64,
    now3: u64,
)
    requires
        wf_arena(s0),
        s0.queue.len() == 0,
        s0.next_game_id < u64::MAX,
        ca != cb && ca != cc && cb != cc,
        !conn_busy(s0, ca) && !conn_busy(s0, cb) && !conn_busy(s0, cc),
    ensures
        ({
            let r1 = spec_request_new_game(s0, ca, na, now1);
            &&& r1 is Ok
            &&& r1->Ok_0.1 =~= Seq::<ReplyV>::empty()
            &&& {
                let s1 = r1->Ok_0.0;
                let r2 = spec_request_new_game(s1, cb, nb, now2);
                &&& s1.queue =~= seq![WaitingV { conn: ca, nickname: na }]
                &&& r2 is Ok
                &&& {
                    let s2 = r2->Ok_0.0;
                    let g = s2.arenas.last();
                    &&& s2.arenas.len() == s0.arenas.len() + 1
                    &&& g.game_id == s0.next_game_id
                    &&& g.left_conn == ca
                    &&& g.right_conn == cb
                    &&& g.left_player.nickname == na
                    &&& g.right_player.nickname == nb
                    &&& r2->Ok_0.1 =~= seq![
                        ReplyV {
                            conn: ca,
                            line: LineV::MultiplexedMessage {
                                game_id: s0.next_game_id,
                                action: ActionV::NewGame { opponent: nb },
                            },
                        },
                        ReplyV {
                            conn: cb,
                            line: LineV::MultiplexedMessage {
                                game_id: s0.next_game_id,
                                action: ActionV::NewGame { opponent: na },
                            },
                        },
                    ]
                    &&& s2.next_game_id == s0.next_game_id + 1
                    &&& {
                        let r3 = spec_request_new_game(s2, cc, nc, now3);
                        &&& r3 is Ok
                        &&& r3->Ok_0.1 =~= Seq::<ReplyV>::empty()
                        &&& r3->Ok_0.0.queue =~= seq![WaitingV { conn: cc, nickname: nc }]
                        &&& r3->Ok_0.0.arenas =~= s2.arenas
                    }
                }
            }
        }),
{
    let r1 = spec_request_new_game(s0, ca, na, now1);
    let q1 = s0.queue.push(WaitingV { conn: ca, nickname: na });
    assert(q1.len() == 1);
    let s1 = r1->Ok_0.0;
    assert(s1.queue =~= seq![WaitingV { conn: ca, nickname: na }]);
    assert(s1.arenas =~= s0.arenas);
    lemma_wf_request_new_game(s0, ca, na, now1);
    assert(!conn_waiting(s1.queue, cb));
    assert(!conn_in_arenas(s1.arenas, cb)) by {
        if conn_in_arenas(s1.arenas, cb) {
            let i = choose|i: int|
                0 <= i < s1.arenas.len() && conn_in_game(#[trigger] s1.arenas[i], cb);
            assert(conn_in_game(s0.arenas[i], cb));
        }
    }
    let r2 = spec_request_new_game(s1, cb, nb, now2);
    let q2 = s1.queue.push(WaitingV { conn: cb, nickname: nb });
    assert(q2.len() == 2);
    assert(q2[0] == WaitingV { conn: ca, nickname: na });
    assert(q2[1] == WaitingV { conn: cb, nickname: nb });
    let s2 = r2->Ok_0.0;
    assert(s2.queue =~= Seq::<WaitingV>::empty());
    lemma_wf_request_new_game(s1, cb, nb, now2);
    assert(s2.arenas.last().left_conn == ca);
    assert(!conn_waiting(s2.queue, cc));
    assert(!conn_in_arenas(s2.arenas, cc)) by {
        if conn_in_arenas(s2.arenas, cc) {
            let i = choose|i: int|
                0 <= i < s2.arenas.len() && conn_in_game(#[trigger] s2.arenas[i], cc);
            if i < s0.arenas.len() {
                assert(conn_in_game(s0.arenas[i], cc));
            }
        }
    }
    let r3 = spec_request_new_game(s2, cc, nc, now3);
    let q3 = s2.queue.push(WaitingV { conn: cc, nickname: nc });
    assert(q3.len() == 1);
    assert(r3->Ok_0.0.queue =~= seq![WaitingV { conn: cc, nickname: nc }]);
}

/// Session ids are never reused: every transition keeps the id counter from
/// falling, and a well-formed registry holds only sessions numbered below
/// it — so an id below the counter can never be handed out again.
pub proof fn lemma_session_ids_never_reused(
    s: ArenaV,
    conn: u64,
    nickname: Seq<char>,
    game_id: u64,
    action: RoundAction,
    now: u64,
)
    requires
        wf_arena(s),
    ensures
        forall|i: int|
            0 <= i < s.arenas.len() ==> (#[trigger] s.arenas[i]).game_id < s.next_game_id,
        s.next_game_id < u64::MAX && spec_request_new_game(s, conn, nickname, now) is Ok
            ==> spec_request_new_game(s, conn, nickname, now)->Ok_0.0.next_game_id
            >= s.next_game_id,
        spec_submit_action(s, conn, game_id, action, now) is Ok ==> spec_submit_action(
            s,
            conn,
            game_id,
            action,
            now,
        )->Ok_0.0.next_game_id == s.next_game_id,
        spec_handle_deadline(s, game_id, now).0.next_game_id == s.next_game_id,
        spec_disconnect(s, conn).0.next_game_id == s.next_game_id,
{
    lemma_game_index(s.arenas, game_id, 0);
}

// ---------------------------------------------------------------------------
// Timeouts and disconnects never stall the peer
// ---------------------------------------------------------------------------
/// Law: once a round's deadline has passed, a side that submitted nothing
/// resolves as `Timeout` — reported as `Timeout`, since a timeout never
/// degrades — and the round completes: both sides get the round report, and
/// the session either continues with cleared slots or is dropped with its
/// verdicts.
pub proof fn lemma_deadline_substitutes_timeout(s: ArenaV, game_id: u64, now: u64)
    requires
        wf_arena(s),
        game_index(s.arenas, game_id, 0) < s.arenas.len(),
        now >= s.arenas[game_index(s.arenas, game_id, 0)].round_deadline,
        s.arenas[game_index(s.arenas, game_id, 0)].pending_left is None,
    ensures
        ({
            let i = game_index(s.arenas, game_id, 0);
            let g = s.arenas[i];
            let b = if g.pending_right is Some {
                g.pending_right->0
            } else {
                RoundAction::Timeout
            };
            let (s1, replies) = spec_handle_deadline(s, game_id, now);
            &&& replies == round_replies(g, RoundAction::Timeout, b)
            &&& replies.len() >= 2
            &&& replies[0] == (ReplyV {
                conn: g.left_conn,
                line: LineV::MultiplexedMessage {
                    game_id: g.game_id,
                    action: ActionV::RoundResult {
                        a: RoundAction::Timeout,
                        b: crate::duel::effective_action(b, g.right_player.ammo_bag),
                    },
                },
            })
            &&& (if round_outcome_of(g, RoundAction::Timeout, b) is Continue {
                s1.arenas[i].pending_left is None && s1.arenas[i].pending_right is None
                    && s1.arenas.len() == s.arenas.len()
            } else {
                s1.arenas.len() == s.arenas.len() - 1
            })
        }),
{
    let i = game_index(s.arenas, game_id, 0);
    lemma_game_index(s.arenas, game_id, 0);
    let g = s.arenas[i];
    let b = if g.pending_right is Some {
        g.pending_right->0
    } else {
        RoundAction::Timeout
    };
    assert(crate::duel::effective_action(RoundAction::Timeout, g.left_player.ammo_bag)
        == RoundAction::Timeout);
    if round_outcome_of(g, RoundAction::Timeout, b) is Continue {
        assert(spec_handle_deadline(s, game_id, now).0.arenas[i] == game_after_round(
            g,
            RoundAction::Timeout,
            b,
            now,
            s.max_round_length_ms,
        ));
    }
}

/// Law: a disconnect mid-session never ends in silence: the surviving peer
/// is sent a terminal `ErrorEnd` for that session at once, and the session
/// is discarded.
pub proof fn lemma_disconnect_notifies_peer(s: ArenaV, conn: u64)
    requires
        wf_arena(s),
        conn_in_arenas(s.arenas, conn),
    ensures
        ({
            let i = conn_game_index(s.arenas, conn, 0);
            let g = s.arenas[i];
            let peer = if g.left_conn == conn {
                g.right_conn
            } else {
                g.left_conn
            };
            let (s1, replies) = spec_disconnect(s, conn);
            &&& 0 <= i < s.arenas.len()
            &&& replies =~= seq![
                ReplyV {
                    conn: peer,
                    line: LineV::MultiplexedMessage {
                        game_id: g.game_id,
                        action: ActionV::ErrorEnd,
                    },
                },
            ]
            &&& peer != conn
            &&& s1.arenas =~= s.arenas.remove(i)
            &&& !conn_waiting(s1.queue, conn)
        }),
{
    lemma_conn_game_index(s.arenas, conn, 0);
    let i = conn_game_index(s.arenas, conn, 0);
    assert(i < s.arenas.len()) by {
        if i == s.arenas.len() {
            let w = choose|k: int|
                0 <= k < s.arenas.len() && conn_in_game(#[trigger] s.arenas[k], conn);
            assert(!conn_in_game(s.arenas[w], conn));
        }
    }
    lemma_queue_without_props(s.queue, conn);
    let q1 = spec_disconnect(s, conn).0.queue;
    assert(!conn_waiting(q1, conn)) by {
        if conn_waiting(q1, conn) {
            let k = choose|k: int| 0 <= k < q1.len() && (#[trigger] q1[k]).conn == conn;
            assert(q1[k].conn != conn);
        }
    }
}

} // verus!
