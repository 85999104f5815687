use tetris_web::spin_ranking::{is_spin_clear, lead_plain_count, rank_spins, PlacedMove, SpinCandidate};

fn plain() -> PlacedMove {
    PlacedMove { spun: false, spin: false, lines_cleared: 0 }
}

fn spin_clear() -> PlacedMove {
    PlacedMove { spun: true, spin: true, lines_cleared: 1 }
}

fn cand(score: i64, lead: usize) -> SpinCandidate {
    let mut moves = Vec::new();
    for _ in 0..lead {
        moves.push(plain());
    }
    moves.push(spin_clear());
    SpinCandidate { score, moves }
}

fn keys(v: &[SpinCandidate]) -> Vec<(usize, i64)> {
    v.iter().map(|c| (lead_plain_count(c), c.score)).collect()
}

#[test]
fn ranking_orders_by_lead_then_score() {
    let nodes = vec![cand(50, 0), cand(10, 1), cand(20, 0)];
    let r = rank_spins(nodes);
    assert_eq!(keys(&r), vec![(0, 20), (0, 50), (1, 10)]);
}

#[test]
fn ranking_twice_is_ranking_once() {
    let nodes = vec![cand(3, 2), cand(50, 0), cand(-4, 1), cand(10, 1), cand(20, 0), cand(20, 0)];
    let once = rank_spins(nodes);
    let k1 = keys(&once);
    let twice = rank_spins(once);
    assert_eq!(keys(&twice), k1);
    assert_eq!(k1, vec![(0, 20), (0, 20), (0, 50), (1, -4), (1, 10), (2, 3)]);
}

#[test]
fn ranking_keeps_order_of_equal_keys() {
    let mut a = cand(5, 0);
    a.moves.push(plain());
    let b = cand(5, 0);
    let r = rank_spins(vec![a, b]);
    assert_eq!(r[0].moves.len(), 2);
    assert_eq!(r[1].moves.len(), 1);
}

#[test]
fn ranking_drops_non_spin_clears() {
    let no_clear = SpinCandidate { score: 1, moves: vec![plain(), plain()] };
    let plain_clear = SpinCandidate {
        score: 2,
        moves: vec![PlacedMove { spun: false, spin: false, lines_cleared: 2 }, spin_clear()],
    };
    let later_spin = cand(3, 3);
    let r = rank_spins(vec![no_clear, plain_clear, later_spin]);
    assert_eq!(keys(&r), vec![(3, 3)]);
}

#[test]
fn ranking_of_nothing_is_empty() {
    assert!(rank_spins(Vec::new()).is_empty());
}

#[test]
fn spin_clear_looks_only_at_first_clear() {
    let c = SpinCandidate {
        score: 0,
        moves: vec![plain(), PlacedMove { spun: false, spin: true, lines_cleared: 1 }, spin_clear()],
    };
    assert!(!is_spin_clear(&c));
    assert_eq!(lead_plain_count(&c), 1);
    assert!(is_spin_clear(&cand(0, 4)));
    assert_eq!(lead_plain_count(&cand(0, 4)), 4);
}
