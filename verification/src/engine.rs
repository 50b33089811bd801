use vstd::prelude::*;
use crate::board_model::{
    in_check, king_at, lemma_apply_wf, lemma_capture_reduces, lemma_move_ok_on_grid, move_legal,
    no_legal_move, occupied_count, wf_board,
};
use crate::board_state::BoardState;
use crate::chess_move::Move;
use crate::evaluation::{evaluate, spec_evaluate};
use crate::move_gen::{all_legal, gen_all_moves};

verus! {

/// Score of a checkmated position, before the distance-to-mate adjustment.
pub const MATE_VALUE: i32 = 1000000000;

/// Deepest iteration the iterative-deepening loop will try.
pub const MAX_DEPTH: u16 = 25;

/// Length of the move buffers: one slot for every ply a line can reach.
pub const ARRAY_SIZE: usize = ((MAX_DEPTH * MAX_DEPTH + MAX_DEPTH) / 2 + 1) as usize;

/// Deepest ply the recursion may reach; past it the search stands pat on the
/// quiescence score, so the line buffers are never overrun.
const MAX_PLY: i32 = 325;

/// Scores stay inside this band, so negating them can never overflow.
pub open spec fn score_in_range(x: int) -> bool {
    -2000000000 <= x <= 2000000000
}

/// The window's lower bound after mate-distance pruning: no score is worse
/// than being mated right now.
pub open spec fn clamp_lo(alpha: int, ply: int) -> int {
    if alpha < ply - MATE_VALUE {
        ply - MATE_VALUE
    } else {
        alpha
    }
}

/// The window's upper bound after mate-distance pruning: no score is better
/// than mating right now.
pub open spec fn clamp_hi(beta: int, ply: int) -> int {
    if beta > MATE_VALUE - ply {
        MATE_VALUE - ply
    } else {
        beta
    }
}

/// Bookkeeping of one search: how many nodes were visited, the confirmed
/// principal variation, and the line currently being explored.
#[derive(Clone, Copy)]
pub struct Search {
    pub nodes_searched: u32,
    pub pv_moves: [Option<Move>; ARRAY_SIZE],
    pub current_line: [Option<Move>; ARRAY_SIZE],
}

/// What a search hands back: the best score seen at the root and the move
/// that earned it, or no move at all when the position is terminal.
pub struct SearchResult {
    pub score: i32,
    pub move_found: Option<Move>,
}

impl Search {
    /// Fresh bookkeeping: nothing searched, no line recorded.
    pub fn new() -> (r: Search)
        ensures
            r.nodes_searched == 0,
            forall|i: int| 0 <= i < 326 ==> r.pv_moves@[i] is None,
            forall|i: int| 0 <= i < 326 ==> r.current_line@[i] is None,
    {
        Search {
            nodes_searched: 0,
            pv_moves: [None;ARRAY_SIZE],
            current_line: [None;ARRAY_SIZE],
        }
    }

    /// Counts one more visited node; the counter holds at its maximum
    /// rather than wrapping.
    pub fn increment_nodes_searched(&mut self)
        ensures
            final(self).nodes_searched == if old(self).nodes_searched < u32::MAX {
                old(self).nodes_searched + 1
            } else {
                old(self).nodes_searched as int
            },
            final(self).pv_moves == old(self).pv_moves,
            final(self).current_line == old(self).current_line,
    {
        if self.nodes_searched < u32::MAX {
            self.nodes_searched = self.nodes_searched + 1;
        }
    }

    /// Records the move under exploration at the given ply.
    pub fn insert_into_current_line(&mut self, ply: i32, mv: &Move)
        requires
            0 <= ply < 326,
        ensures
            final(self).current_line@ == old(self).current_line@.update(ply as int, Some(*mv)),
            final(self).pv_moves == old(self).pv_moves,
            final(self).nodes_searched == old(self).nodes_searched,
    {
        self.current_line[ply as usize] = Some(*mv);
    }

    /// Confirms the line currently explored as the principal variation.
    pub fn set_principle_variation(&mut self)
        ensures
            final(self).pv_moves == old(self).current_line,
            final(self).current_line == old(self).current_line,
            final(self).nodes_searched == old(self).nodes_searched,
    {
        self.pv_moves = self.current_line;
    }

    /// Clears the node counter and the current line for the next iteration;
    /// the confirmed principal variation is kept.
    pub fn reset_search(&mut self)
        ensures
            final(self).nodes_searched == 0,
            forall|i: int| 0 <= i < 326 ==> final(self).current_line@[i] is None,
            final(self).pv_moves == old(self).pv_moves,
    {
        self.nodes_searched = 0;
        self.current_line = [None;ARRAY_SIZE];
    }
}

#[verifier::external_type_specification]
#[verifier::external_body]
pub struct ExInstant(std::time::Instant);

/// Relies on std::time::Instant::now: an opaque reading of the monotonic
/// clock; nothing can be promised of it.
#[verifier::external_body]
fn instant_now() -> std::time::Instant {
    std::time::Instant::now()
}

/// Relies on std::time::Instant::elapsed: the time passed since `start` was
/// taken; a clock reading, so nothing is promised of it.
#[verifier::external_body]
fn elapsed_since(start: &std::time::Instant) -> std::time::Duration {
    start.elapsed()
}

/// Relies on std::time::Duration::as_secs: the whole seconds the duration
/// holds; nothing is promised of it, as nothing downstream may rest on the
/// clock.
#[verifier::external_body]
fn duration_secs(d: &std::time::Duration) -> u64 {
    d.as_secs()
}

/// What the executable check test reports agrees with the `in_check`
/// predicate: the board holds exactly one king of the side to move, and the
/// test answers whether that king's square is attacked.
proof fn lemma_in_check_agrees(b: crate::board_model::BoardModel, checked: bool)
    requires
        wf_board(b),
        forall|kr: int, kc: int|
            king_at(b, b.active_color, kr, kc) ==> checked == crate::board_model::square_attacked(
                b,
                b.active_color,
                kr,
                kc,
            ),
    ensures
        checked == in_check(b),
{
    let (kr, kc) = choose|kr: int, kc: int| king_at(b, b.active_color, kr, kc);
    assert(king_at(b, b.active_color, kr, kc));
    if checked {
        assert(in_check(b));
    } else {
        if in_check(b) {
            let (ar, ac) = choose|ar: int, ac: int|
                king_at(b, b.active_color, ar, ac) && crate::board_model::square_attacked(
                    b,
                    b.active_color,
                    ar,
                    ac,
                );
            assert(king_at(b, b.active_color, ar, ac));
        }
    }
}

/// Capture-only search at the leaves: the stand-pat evaluation bounds the
/// score from below, and only capturing replies are explored, to avoid
/// misjudging a position in the middle of an exchange.
fn quiesce(alpha: i32, beta: i32, search: &mut Search, board: &BoardState) -> (r: i32)
    requires
        wf_board(board@),
        score_in_range(alpha as int),
        score_in_range(beta as int),
    ensures
        score_in_range(r as int),
        final(search).nodes_searched >= old(search).nodes_searched,
        alpha <= beta ==> alpha <= r <= beta,
        spec_evaluate(board@) >= beta ==> r == beta,
        alpha <= beta && spec_evaluate(board@) < beta ==> r as int >= (if alpha as int
            >= spec_evaluate(board@) {
            alpha as int
        } else {
            spec_evaluate(board@)
        }),
        alpha <= beta && spec_evaluate(board@) < beta && (forall|m: Move|
            move_legal(board@, m) ==> m.piece_captured is None) ==> r as int == (if alpha as int
            >= spec_evaluate(board@) {
            alpha as int
        } else {
            spec_evaluate(board@)
        }),
    decreases occupied_count(board@.squares),
{
    let init_eval: i32 = evaluate(board);
    search.increment_nodes_searched();

    if init_eval >= beta {
        return beta;
    }
    let mut alpha = alpha;
    if alpha < init_eval {
        alpha = init_eval;
    }

    let ghost alpha0 = alpha;
    let moves = gen_all_moves(board, board.active_color);
    let mut i: usize = 0;
    while i < moves.len()
        invariant
            wf_board(board@),
            all_legal(board@, moves@),
            score_in_range(alpha as int),
            score_in_range(beta as int),
            alpha0 <= alpha,
            alpha0 as int <= beta as int ==> alpha <= beta,
            old(search).nodes_searched <= search.nodes_searched,
            (forall|m: Move| move_legal(board@, m) ==> m.piece_captured is None) ==> alpha
                == alpha0,
        decreases moves@.len() - i,
    {
        let mv = moves[i];
        match mv.piece_captured {
            Some(_) => {
                proof {
                    // A capturing legal move exists, so the quiet-position
                    // clause does not apply here.
                    if forall|m: Move| move_legal(board@, m) ==> m.piece_captured is None {
                        assert(mv.piece_captured is None);
                    }
                    lemma_move_ok_on_grid(board@, mv);
                    lemma_apply_wf(board@, mv);
                    lemma_capture_reduces(board@, mv);
                }
                let mut board_copy: BoardState = *board;
                board_copy.make_move(&mv);
                let score = -1 * quiesce(-1 * beta, -1 * alpha, search, &board_copy);
                if score >= beta {
                    return beta;
                }
                if score > alpha {
                    alpha = score;
                }
            },
            None => {},
        }
        i = i + 1;
    }

    alpha
}

/// Negamax with alpha-beta pruning: a position's score is always from the
/// mover's perspective, so child scores come back negated. At depth zero a
/// side in check gets one more ply instead of dropping to quiescence; mate
/// distance pruning narrows the window so nearer mates always win; with no
/// legal move the position scores as mate (the nearer the worse) or as a
/// stalemate draw; the recorded principal-variation move is searched first.
#[verifier::rlimit(60)]
fn alpha_beta(alpha: i32, beta: i32, depth: u16, search: &mut Search, ply: i32, board: &BoardState)
    -> (r: i32)
    requires
        wf_board(board@),
        score_in_range(alpha as int),
        score_in_range(beta as int),
        0 <= ply <= MAX_PLY,
    ensures
        score_in_range(r as int),
        final(search).nodes_searched >= old(search).nodes_searched,
        ({
            let ca = clamp_lo(alpha as int, ply as int);
            let cb = clamp_hi(beta as int, ply as int);
            &&& (ply < MAX_PLY && (depth > 0 || in_check(board@)) && ca >= cb ==> r as int == ca)
            &&& (ply < MAX_PLY && (depth > 0 || in_check(board@)) && ca < cb && no_legal_move(
                board@,
            ) && in_check(board@) ==> r as int == -(MATE_VALUE - ply))
            &&& (ply < MAX_PLY && (depth > 0 || in_check(board@)) && ca < cb && no_legal_move(
                board@,
            ) && !in_check(board@) ==> r == 0)
            &&& (ply < MAX_PLY && depth == 0 && !in_check(board@) && spec_evaluate(board@)
                >= beta ==> r == beta)
        }),
    decreases MAX_PLY - ply,
{
    search.increment_nodes_searched();

    if ply >= MAX_PLY {
        // The line buffers end here; stand pat on the quiescence score.
        return quiesce(alpha, beta, search, board);
    }

    let mut cur_depth = depth;
    if cur_depth == 0 {
        let checked = board.is_in_check(board.active_color, None);
        proof {
            lemma_in_check_agrees(board@, checked);
        }
        if checked {
            // Check extension: search evasions fully rather than truncating.
            cur_depth = 1;
        } else {
            return quiesce(alpha, beta, search, board);
        }
    }

    // Mate-distance pruning: no score can be better than mating now, nor
    // worse than being mated now.
    let mut cur_alpha = alpha;
    let mut cur_beta = beta;
    if cur_alpha < ply - MATE_VALUE {
        cur_alpha = ply - MATE_VALUE;
    }
    if cur_beta > MATE_VALUE - ply {
        cur_beta = MATE_VALUE - ply;
    }
    assert(cur_alpha as int == clamp_lo(alpha as int, ply as int));
    assert(cur_beta as int == clamp_hi(beta as int, ply as int));
    if cur_alpha >= cur_beta {
        return cur_alpha;
    }

    let moves = gen_all_moves(board, board.active_color);

    if moves.len() == 0 {
        let checked = board.is_in_check(board.active_color, None);
        proof {
            lemma_in_check_agrees(board@, checked);
        }
        if checked {
            // Checkmate: the earlier it falls, the more extreme the score.
            return -1 * (MATE_VALUE - ply);
        } else {
            // Draw by stalemate.
            return 0;
        }
    }
    proof {
        // A move came back, so the position is not terminal.
        assert(move_legal(board@, moves@[0]));
        assert(!no_legal_move(board@));
    }

    let pv_move: Option<Move> = search.pv_moves[ply as usize];
    let mut best: i32 = -2000000000;
    let mut pv_index: usize = moves.len();

    // Search the recorded principal-variation move first, when it is among
    // the legal moves.
    if let Some(pm) = pv_move {
        let mut i: usize = 0;
        while i < moves.len()
            invariant
                wf_board(board@),
                all_legal(board@, moves@),
                score_in_range(cur_alpha as int),
                score_in_range(cur_beta as int),
                score_in_range(best as int),
                cur_alpha < cur_beta,
                old(search).nodes_searched <= search.nodes_searched,
                !no_legal_move(board@),
                clamp_lo(alpha as int, ply as int) < clamp_hi(beta as int, ply as int),
                1 <= cur_depth,
                depth > 0 || in_check(board@),
                0 <= ply < MAX_PLY,
            decreases moves@.len() - i,
        {
            let mv = moves[i];
            if mv == pm {
                pv_index = i;
                search.insert_into_current_line(ply, &mv);
                proof {
                    lemma_move_ok_on_grid(board@, mv);
                    lemma_apply_wf(board@, mv);
                }
                let mut board_copy: BoardState = *board;
                board_copy.make_move(&mv);
                let score = -1 * alpha_beta(
                    -1 * cur_beta,
                    -1 * cur_alpha,
                    cur_depth - 1,
                    search,
                    ply + 1,
                    &board_copy,
                );
                if score > best {
                    best = score;
                }
                if score >= cur_beta {
                    return score;
                }
                if score > cur_alpha {
                    cur_alpha = score;
                    search.set_principle_variation();
                }
                break ;
            }
            i = i + 1;
        }
    }

    let mut i: usize = 0;
    while i < moves.len()
        invariant
            wf_board(board@),
            all_legal(board@, moves@),
            score_in_range(cur_alpha as int),
            score_in_range(cur_beta as int),
            score_in_range(best as int),
            cur_alpha < cur_beta,
            old(search).nodes_searched <= search.nodes_searched,
            !no_legal_move(board@),
            clamp_lo(alpha as int, ply as int) < clamp_hi(beta as int, ply as int),
            1 <= cur_depth,
            depth > 0 || in_check(board@),
            0 <= ply < MAX_PLY,
        decreases moves@.len() - i,
    {
        if i != pv_index {
            let mv = moves[i];
            search.insert_into_current_line(ply, &mv);
            proof {
                lemma_move_ok_on_grid(board@, mv);
                lemma_apply_wf(board@, mv);
            }
            let mut board_copy: BoardState = *board;
            board_copy.make_move(&mv);
            let score = -1 * alpha_beta(
                -1 * cur_beta,
                -1 * cur_alpha,
                cur_depth - 1,
                search,
                ply + 1,
                &board_copy,
            );
            if score > best {
                best = score;
            }
            if score >= cur_beta {
                return score;
            }
            if score > cur_alpha {
                cur_alpha = score;
                search.set_principle_variation();
            }
        }
        i = i + 1;
    }

    best
}

/// Iterative deepening from depth two up to `MAX_DEPTH`, checking the
/// wall-clock budget between root moves. The result carries the best move of
/// the last completed iteration (every completed iteration records one); a
/// timeout before the first iteration completes, like a terminal position,
/// reports no move. Any move returned is a legal move of the given position,
/// with its score from the mover's perspective.
#[verifier::rlimit(60)]
pub fn calculate_best_move(board: &BoardState, time_to_think: u64) -> (result: SearchResult)
    requires
        wf_board(board@),
    ensures
        result.move_found matches Some(m) ==> move_legal(board@, m),
        no_legal_move(board@) ==> result.move_found is None,
        result.move_found is Some ==> score_in_range(result.score as int),
{
    let mut result = SearchResult { score: i32::MIN, move_found: None };
    let mut depth: u16 = 2;
    let ply: i32 = 0;
    let mut search = Search::new();

    let moves = gen_all_moves(board, board.active_color);
    if moves.len() == 0 {
        // Terminal position: there is no move to report.
        proof {
            assert forall|m: Move| !move_legal(board@, m) by {
                if move_legal(board@, m) {
                    assert(moves@.contains(m));
                }
            }
        }
        return result;
    }
    proof {
        assert(move_legal(board@, moves@[0]));
        assert(!no_legal_move(board@));
    }

    let start = instant_now();

    while depth < MAX_DEPTH
        invariant
            wf_board(board@),
            all_legal(board@, moves@),
            moves@.len() > 0,
            2 <= depth,
            ply == 0,
            result.move_found matches Some(m) ==> move_legal(board@, m),
            result.move_found is Some ==> score_in_range(result.score as int),
            !no_legal_move(board@),
        decreases MAX_DEPTH - depth,
    {
        // Each iteration restarts its bookkeeping: a fresh window, a fresh
        // node count, and its own best move.
        search.reset_search();
        let mut alpha: i32 = -100000;
        let mut beta: i32 = 100000;

        // The best of this iteration alone; it replaces the overall best
        // only once the iteration has completed.
        let mut current = SearchResult { score: i32::MIN, move_found: None };
        let mut i: usize = 0;
        while i < moves.len()
            invariant
                wf_board(board@),
                all_legal(board@, moves@),
                moves@.len() > 0,
                2 <= depth,
                ply == 0,
                score_in_range(alpha as int),
                score_in_range(beta as int),
                result.move_found matches Some(m) ==> move_legal(board@, m),
                result.move_found is Some ==> score_in_range(result.score as int),
                current.move_found matches Some(m) ==> move_legal(board@, m),
                current.move_found is Some ==> score_in_range(current.score as int),
                !no_legal_move(board@),
            decreases moves@.len() - i,
        {
            let elapsed = elapsed_since(&start);
            if duration_secs(&elapsed) > time_to_think {
                // Out of time: fall back to the last completed iteration, or
                // report no move when none ever completed.
                return result;
            }
            let mv = moves[i];
            proof {
                lemma_move_ok_on_grid(board@, mv);
                lemma_apply_wf(board@, mv);
            }
            let mut board_copy: BoardState = *board;
            board_copy.make_move(&mv);
            let eval = -1 * alpha_beta(-1 * beta, -1 * alpha, depth - 1, &mut search, ply + 1, &board_copy);

            search.insert_into_current_line(ply, &mv);
            // Track the best-scoring move of this iteration; the first move
            // searched seeds it, so a completed iteration always has one.
            if eval > alpha || current.move_found.is_none() {
                if eval > current.score || current.move_found.is_none() {
                    current.move_found = Some(mv);
                    current.score = eval;
                }
                if eval > alpha {
                    alpha = eval;
                    search.set_principle_variation();
                }
            }
            i = i + 1;
        }

        // The iteration completed: its best move becomes the answer so far.
        if current.move_found.is_some() {
            result = current;
        }
        depth = depth + 1;
    }

    result
}

} // verus!
