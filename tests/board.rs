use parkour::board::{
    height_from_draw, random_barrier, random_height, random_planet, Board, BoardConfig, Brick, BrickConfig,
};
use parkour::constant::{BOARD_COUNT, BOARD_COUNT_Z, BOARD_SIZE, BOARD_Z_OFFSET};

fn rows_per_lane(board: &Board, cfg: &BoardConfig) -> Vec<Vec<i64>> {
    let lanes = (2 * cfg.lane_half_count + 1) as usize;
    let mut out = vec![Vec::new(); lanes];
    for b in board.bricks.iter() {
        out[(b.lane + cfg.lane_half_count) as usize].push(b.row);
    }
    for rows in out.iter_mut() {
        rows.sort();
    }
    out
}

fn assert_contiguous(board: &Board, cfg: &BoardConfig) {
    for rows in rows_per_lane(board, cfg) {
        assert_eq!(rows.len() as i64, cfg.rows);
        for w in rows.windows(2) {
            assert_eq!(w[1] - w[0], 1);
        }
    }
}

#[test]
fn setup_lays_out_rows_and_lanes() {
    let cfg = BoardConfig::default();
    let board = Board::setup(&cfg);
    assert_eq!(board.bricks.len() as i64, BOARD_COUNT_Z * BOARD_COUNT as i64);
    for (k, b) in board.bricks.iter().enumerate() {
        assert_eq!(b.row, -40 + (k / 3) as i64);
        assert_eq!(b.lane, (k % 3) as i32 - 1);
        assert!(-200_000_000 <= b.height && b.height < 0);
    }
    assert_contiguous(&board, &cfg);
}

#[test]
fn brick_recycles_once_knight_passes_it() {
    let cfg = BoardConfig::default();
    let mut board = Board::setup(&cfg);
    // The last brick of the centre lane sits on row 7, at z = 14 m.
    let k = board.bricks.iter().position(|b| b.row == 7 && b.lane == 0).unwrap();
    let x = board.bricks[k].row * BOARD_SIZE;
    let neighbour = board.bricks.iter().position(|b| b.row == 6 && b.lane == 0).unwrap();
    let spacing_before = board.bricks[k].row - board.bricks[neighbour].row;
    assert_eq!(spacing_before, 1);
    let first = board.bricks.iter().position(|b| b.row == -40 && b.lane == 0).unwrap();
    board.lifecycle_board(&cfg, x - BOARD_Z_OFFSET);
    assert_eq!(board.bricks[k].row, 7);
    board.lifecycle_board(&cfg, x - BOARD_Z_OFFSET - 1);
    assert_eq!(board.bricks[k].row * BOARD_SIZE, x - BOARD_COUNT_Z * BOARD_SIZE);
    assert_eq!(board.bricks[first].row - board.bricks[k].row, spacing_before);
    assert_eq!(board.bricks[neighbour].row, 6);
    assert_eq!((board.bricks[k].row - board.bricks[neighbour].row).rem_euclid(BOARD_COUNT_Z), spacing_before);
    assert_contiguous(&board, &cfg);
}

#[test]
fn recycling_keeps_spacing_as_the_knight_runs() {
    let cfg = BoardConfig::default();
    let mut board = Board::setup(&cfg);
    let initial: Vec<i64> = board.bricks.iter().map(|b| b.row).collect();
    let mut z: i64 = 0;
    for step in 0..2000i64 {
        z -= 60_000_000 + (step % 7) * 150_000_000;
        let before: Vec<Brick> = board.bricks.clone();
        board.lifecycle_board(&cfg, z);
        for (b0, b1) in before.iter().zip(board.bricks.iter()) {
            if b0.row * BOARD_SIZE > z + BOARD_Z_OFFSET {
                assert_eq!(b1.row, b0.row - BOARD_COUNT_Z);
            } else {
                assert_eq!(b1, b0);
            }
        }
        for i in 0..board.bricks.len() {
            for j in [0usize, 5, 77] {
                let now = board.bricks[i].row - board.bricks[j].row;
                let then = initial[i] - initial[j];
                assert_eq!(now.rem_euclid(BOARD_COUNT_Z), then.rem_euclid(BOARD_COUNT_Z));
            }
        }
        assert_contiguous(&board, &cfg);
    }
    assert!(board.bricks.iter().all(|b| b.row * BOARD_SIZE <= z + BOARD_Z_OFFSET));
}

#[test]
fn a_far_jump_recycles_the_whole_pool_once() {
    let cfg = BoardConfig::default();
    let mut board = Board::setup(&cfg);
    board.lifecycle_board(&cfg, -1_000_000_000_000);
    for (k, b) in board.bricks.iter().enumerate() {
        assert_eq!(b.row, -40 + (k / 3) as i64 - 48);
    }
    assert_contiguous(&board, &cfg);
}

#[test]
fn brick_recycle_and_behind_are_exact() {
    let cfg = BoardConfig::default();
    let mut b = Brick { row: 3, lane: 1, height: -5, config: BrickConfig { has_barrier: false } };
    assert!(b.is_behind(&cfg, -2_000_000_001));
    assert!(!b.is_behind(&cfg, -2_000_000_000));
    b.recycle(&cfg, -7, true);
    assert_eq!(b, Brick { row: 3 - 48, lane: 1, height: -7, config: BrickConfig { has_barrier: true } });
}

#[test]
fn random_height_stays_in_jitter_range_and_varies() {
    let cfg = BoardConfig::default();
    let draws: Vec<i64> = (0..500).map(|_| random_height(&cfg)).collect();
    assert!(draws.iter().all(|h| -2 * cfg.height_jitter <= *h && *h < 0));
    assert!(draws.iter().any(|h| *h != draws[0]));
    assert!(draws.iter().any(|h| *h > -cfg.height_jitter));
}

#[test]
fn random_barrier_follows_the_ratio_ends() {
    let never = BoardConfig { barrier_numerator: 0, barrier_denominator: 3, ..BoardConfig::default() };
    let always = BoardConfig { barrier_numerator: 3, barrier_denominator: 3, ..BoardConfig::default() };
    for _ in 0..200 {
        assert!(!random_barrier(&never));
        assert!(random_barrier(&always));
    }
    let even = BoardConfig { barrier_numerator: 1, barrier_denominator: 2, ..BoardConfig::default() };
    let hits = (0..1000).filter(|_| random_barrier(&even)).count();
    assert!(hits > 0 && hits < 1000);
    let trees = (0..1000).filter(|_| random_planet()).count();
    assert!(trees > 0 && trees < 1000);
}

#[test]
fn board_config_validity() {
    assert!(BoardConfig::default().is_valid());
    assert!(!BoardConfig { rows: 0, ..BoardConfig::default() }.is_valid());
    assert!(!BoardConfig { barrier_numerator: 4, barrier_denominator: 3, ..BoardConfig::default() }.is_valid());
    assert!(!BoardConfig { rows_behind: 49, ..BoardConfig::default() }.is_valid());
}

#[test]
fn single_row_pool_recycles_in_place() {
    let cfg = BoardConfig { rows: 1, rows_behind: 0, lane_half_count: 0, ..BoardConfig::default() };
    let mut board = Board::setup(&cfg);
    assert_eq!(board.bricks.len(), 1);
    assert_eq!(board.bricks[0].row, -1);
    board.lifecycle_board(&cfg, -20_000_000_000);
    assert_eq!(board.bricks[0].row, -2);
}

#[test]
fn height_from_draw_lowers_by_jitter() {
    let cfg = BoardConfig::default();
    assert_eq!(height_from_draw(&cfg, 0), -100_000_000);
    assert_eq!(height_from_draw(&cfg, -100_000_000), -200_000_000);
    assert_eq!(height_from_draw(&cfg, 99_999_999), -1);
}

fn small_config() -> BoardConfig {
    BoardConfig { lane_half_count: 1, rows: 4, rows_behind: 1, ..BoardConfig::default() }
}

#[test]
fn setup_with_places_each_draw() {
    let cfg = small_config();
    let heights: Vec<i64> = (0..12).map(|k| -1 - k as i64).collect();
    let barriers: Vec<bool> = (0..12).map(|k| k % 4 == 1).collect();
    let board = Board::setup_with(&cfg, &heights, &barriers);
    assert_eq!(board.bricks.len(), 12);
    for k in 0..12usize {
        let expected = Brick {
            row: -3 + (k / 3) as i64,
            lane: (k % 3) as i32 - 1,
            height: heights[k],
            config: BrickConfig { has_barrier: barriers[k] },
        };
        assert_eq!(board.bricks[k], expected);
    }
}

#[test]
fn recycle_behind_gives_each_recycled_brick_its_draw() {
    let cfg = small_config();
    let heights: Vec<i64> = vec![-1; 12];
    let barriers: Vec<bool> = vec![false; 12];
    let mut board = Board::setup_with(&cfg, &heights, &barriers);
    let before = board.bricks.clone();
    let new_heights: Vec<i64> = (0..12).map(|k| -10 - k as i64).collect();
    let new_barriers: Vec<bool> = vec![true; 12];
    // Rows -1 and 0 lie behind a knight at z = -12 m (margin 8 m, bricks 2 m).
    board.recycle_behind(&cfg, -12_000_000_000, &new_heights, &new_barriers);
    for k in 0..12usize {
        let b0 = before[k];
        let b1 = board.bricks[k];
        if b0.row >= -1 {
            assert_eq!(b1, Brick { row: b0.row - 4, lane: b0.lane, height: new_heights[k], config: BrickConfig { has_barrier: true } });
        } else {
            assert_eq!(b1, b0);
        }
    }
    assert_contiguous(&board, &cfg);
}

#[test]
fn recycled_bricks_follow_barrier_ratio_ends() {
    let never = BoardConfig { barrier_numerator: 0, ..BoardConfig::default() };
    let mut board = Board::setup(&never);
    board.lifecycle_board(&never, -1_000_000_000_000);
    assert!(board.bricks.iter().all(|b| !b.config.has_barrier));
    let always = BoardConfig { barrier_numerator: 10, ..BoardConfig::default() };
    let mut board = Board::setup(&always);
    assert!(board.bricks.iter().all(|b| b.config.has_barrier));
    board.lifecycle_board(&always, -1_000_000_000_000);
    assert!(board.bricks.iter().all(|b| b.config.has_barrier));
}
