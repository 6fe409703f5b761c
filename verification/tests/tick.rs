use tidepool::clmm::state::tick::{
    check_tick_alignment, check_tick_bounds, get_tick_array_start_index, Tick, TickArray, MAX_TICK, MIN_TICK,
    TICK_ARRAY_SIZE,
};

fn empty_array(start_tick_index: i32) -> TickArray {
    TickArray {
        pool: [0u8; 32],
        start_tick_index,
        ticks: vec![Tick::default(); TICK_ARRAY_SIZE],
        bump: 0,
    }
}

#[test]
fn test_check_tick_bounds() {
    assert!(check_tick_bounds(0));
    assert!(check_tick_bounds(MIN_TICK));
    assert!(check_tick_bounds(MAX_TICK));
    assert!(!check_tick_bounds(MIN_TICK - 1));
    assert!(!check_tick_bounds(MAX_TICK + 1));
}

#[test]
fn test_check_tick_alignment() {
    assert!(check_tick_alignment(0, 10));
    assert!(check_tick_alignment(100, 10));
    assert!(check_tick_alignment(-100, 10));
    assert!(!check_tick_alignment(5, 10));
    assert!(!check_tick_alignment(-15, 10));
    assert!(check_tick_alignment(60, 60));
}

#[test]
fn test_get_tick_array_start_index() {
    assert_eq!(get_tick_array_start_index(0, 10), 0);
    assert_eq!(get_tick_array_start_index(639, 10), 0);
    assert_eq!(get_tick_array_start_index(640, 10), 640);
    assert_eq!(get_tick_array_start_index(-1, 10), -640);
    assert_eq!(get_tick_array_start_index(-640, 10), -640);
    assert_eq!(get_tick_array_start_index(-641, 10), -1280);
}

#[test]
fn test_tick_array_get_offset() {
    let ta = empty_array(0);
    assert_eq!(ta.get_tick_offset(0, 10), Some(0));
    assert_eq!(ta.get_tick_offset(10, 10), Some(1));
    assert_eq!(ta.get_tick_offset(630, 10), Some(63));
    assert_eq!(ta.get_tick_offset(640, 10), None); // out of range
    assert_eq!(ta.get_tick_offset(-10, 10), None); // before start
}

#[test]
fn test_tick_array_end_index() {
    let ta = empty_array(0);
    assert_eq!(ta.end_tick_index(10), 640);
    assert_eq!(ta.end_tick_index(1), 64);
    assert_eq!(ta.end_tick_index(60), 3840);
}

#[test]
fn tick_default_is_uninitialized_and_empty() {
    let t = Tick::default();
    assert!(!t.initialized);
    assert_eq!(t.liquidity_net, 0);
    assert_eq!(t.liquidity_gross, 0);
    assert_eq!(t.fee_growth_outside_a, 0);
    assert_eq!(t.fee_growth_outside_b, 0);
}

#[test]
fn get_tick_and_get_tick_mut_find_the_slot() {
    let mut ta = empty_array(-640);
    assert!(ta.get_tick(-640, 10).is_some());
    assert!(ta.get_tick(0, 10).is_none());
    {
        let t = ta.get_tick_mut(-630, 10).unwrap();
        t.liquidity_gross = 7;
    }
    assert_eq!(ta.ticks[1].liquidity_gross, 7);
    assert_eq!(ta.get_tick(-630, 10).unwrap().liquidity_gross, 7);
    assert!(ta.get_tick_mut(1000, 10).is_none());
}

#[test]
fn offset_rounds_down_between_spaced_ticks() {
    let ta = empty_array(0);
    assert_eq!(ta.get_tick_offset(15, 10), Some(1));
    assert_eq!(ta.get_tick_offset(639, 10), Some(63));
}

#[test]
fn start_index_of_negative_ticks_rounds_down() {
    assert_eq!(get_tick_array_start_index(-6400, 100), -6400);
    assert_eq!(get_tick_array_start_index(-6401, 100), -12800);
    assert_eq!(get_tick_array_start_index(MIN_TICK, 1), -443648);
}
