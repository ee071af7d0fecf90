//! Unit tests for the grid, the stacks, text handling and arithmetic.

use befunge::arith::{div_op_exec, rem_op_exec, sat_mul_exec, sat_sub_exec};
use befunge::delta::Delta;
use befunge::direction::Direction;
use befunge::pointer::InstructionPointer;
use befunge::state::{EndAt, FungeState, MoveType, OnTick};
use befunge::grid::FungeGrid;
use befunge::stack::FungeStack;
use befunge::text::{chars_to_string, format_i32, parse_i32, str_chars};
use befunge::vector::{sat_add_exec, FungeVector};

fn grid(text: &str, expand: bool) -> FungeGrid {
    FungeGrid::new(text.to_string(), expand)
}

#[test]
fn grid_parses_and_pads() {
    let g = grid("ab\ncdef\ng", true);
    assert_eq!(g.width(), 4);
    assert_eq!(g.height(), 3);
    assert_eq!(g.char_at(FungeVector(0, 0)), 'a');
    assert_eq!(g.char_at(FungeVector(3, 0)), ' ');
    assert_eq!(g.char_at(FungeVector(3, 1)), 'f');
    assert_eq!(g.char_at(FungeVector(1, 2)), ' ');
}

#[test]
fn negative_positions_read_blank() {
    let g = grid("abc", true);
    assert_eq!(g.char_at(FungeVector(-1, 0)), ' ');
    assert_eq!(g.char_at(FungeVector(0, -1)), ' ');
    assert_eq!(g.char_at(FungeVector(-3, -7)), ' ');
}

#[test]
fn write_then_read_back() {
    let mut g = grid("abc\ndef", true);
    g.set_char(FungeVector(1, 1), 'x');
    assert_eq!(g.char_at(FungeVector(1, 1)), 'x');
    g.set_char(FungeVector(0, 0), 'Q');
    assert_eq!(g.char_at(FungeVector(0, 0)), 'Q');
}

#[test]
fn negative_writes_are_dropped() {
    let mut g = grid("abc", true);
    g.set_char(FungeVector(-1, 0), 'x');
    assert_eq!(g.width(), 3);
    assert_eq!(g.height(), 1);
    assert_eq!(g.char_at(FungeVector(0, 0)), 'a');
}

#[test]
fn expansion_write_grows_grid() {
    let mut g = grid("p  ", true);
    assert_eq!(g.width(), 3);
    assert_eq!(g.height(), 1);
    g.set_char(FungeVector(5, 0), 'z');
    assert!(g.width() >= 6);
    assert_eq!(g.char_at(FungeVector(5, 0)), 'z');
    assert_eq!(g.char_at(FungeVector(4, 0)), ' ');
}

#[test]
fn rejected_write_changes_nothing() {
    let mut g = grid("p  ", false);
    g.set_char(FungeVector(5, 0), 'z');
    assert_eq!(g.width(), 3);
    assert_eq!(g.height(), 1);
    assert_eq!(g.char_at_or_space(FungeVector(5, 0)), ' ');
}

#[test]
fn cell_ahead_wraps_in_bounds() {
    let g = grid("abc\ndef", true);
    let p = g.cell_ahead(FungeVector(2, 0), FungeVector(1, 0));
    assert_eq!(p, FungeVector(0, 0));
    let q = g.cell_ahead(FungeVector(0, 1), FungeVector(-1, 0));
    assert_eq!(q, FungeVector(2, 1));
    let r = g.cell_ahead(FungeVector(1, 1), FungeVector(0, 1));
    assert_eq!(r, FungeVector(1, 0));
    for dx in -5..=5 {
        for dy in -5..=5 {
            let w = g.cell_ahead(FungeVector(1, 1), FungeVector(dx, dy));
            assert!(0 <= w.0 && w.0 < g.width() as i32);
            assert!(0 <= w.1 && w.1 < g.height() as i32);
        }
    }
}

#[test]
fn reset_restores_load_time_grid() {
    let mut g = grid("abc\ndef", true);
    g.set_char(FungeVector(0, 0), 'x');
    g.set_char(FungeVector(9, 3), 'y');
    assert!(g.width() >= 10);
    g.reset();
    assert_eq!(g.width(), 3);
    assert_eq!(g.height(), 2);
    assert_eq!(g.char_at(FungeVector(0, 0)), 'a');
    assert_eq!(g.char_at(FungeVector(2, 1)), 'f');
}

#[test]
fn read_from_copies_region() {
    let g = grid("abc\ndef", true);
    let s = g.read_from(FungeVector(0, 0), FungeVector(1, 1));
    assert_eq!(s, "ab\nde\n");
    let empty = g.read_from(FungeVector(-1, 0), FungeVector(1, 1));
    assert_eq!(empty, "");
    let oob = g.read_from(FungeVector(0, 0), FungeVector(5, 0));
    assert_eq!(oob, "");
}

#[test]
fn place_pastes_text() {
    let mut g = grid("....\n....", true);
    g.place("xy\nz".to_string(), FungeVector(1, 0), false);
    assert_eq!(g.char_at(FungeVector(1, 0)), 'x');
    assert_eq!(g.char_at(FungeVector(2, 0)), 'y');
    assert_eq!(g.char_at(FungeVector(1, 1)), 'z');
    let mut b = grid("....", true);
    b.place("x\ny".to_string(), FungeVector(0, 0), true);
    assert_eq!(b.char_at(FungeVector(0, 0)), 'x');
    assert_eq!(b.char_at(FungeVector(1, 0)), '\n');
    assert_eq!(b.char_at(FungeVector(2, 0)), 'y');
}

#[test]
fn start_pos_skips_shebang_lines() {
    let g = grid("#!x\n#y\nzw", true);
    assert_eq!(g.start_pos(false), FungeVector(0, 0));
    assert_eq!(g.start_pos(true), FungeVector(0, 2));
}

#[test]
fn pop_on_empty_yields_zero() {
    let mut s = FungeStack::new();
    assert_eq!(s.pop(), 0);
    assert_eq!(s.len(), 0);
    s.queue_mode = true;
    assert_eq!(s.pop(), 0);
}

#[test]
fn stack_order_and_modes() {
    let mut s = FungeStack::new();
    s.push(1);
    s.push(2);
    s.push(3);
    assert_eq!(s.pop(), 3);
    assert_eq!(s.pop(), 2);
    assert_eq!(s.pop(), 1);

    let mut q = FungeStack::new();
    q.queue_mode = true;
    q.push(1);
    q.push(2);
    assert_eq!(q.pop(), 1);
    assert_eq!(q.pop(), 2);

    let mut inv = FungeStack::new();
    inv.invert_mode = true;
    inv.push(1);
    inv.push(2);
    assert_eq!(inv.pop(), 1);

    let v = FungeStack::from_vec(vec![7, 8]);
    assert_eq!(v.get(0), 7);
    assert_eq!(v.get(1), 8);
    assert_eq!(v.len(), 2);
}

#[test]
fn permute_matches_factorial_ordering() {
    let mut s = FungeStack::from_vec(vec![10, 20, 30]);
    s.permute(1);
    assert_eq!(s.to_vec(), vec![10, 30, 20]);
    let mut t = FungeStack::from_vec(vec![10, 20, 30]);
    t.permute(0);
    assert_eq!(t.to_vec(), vec![10, 20, 30]);
}

#[test]
fn permute_is_a_bijection_on_contents() {
    let mut seen: Vec<Vec<i32>> = Vec::new();
    for code in 0..6usize {
        let mut s = FungeStack::from_vec(vec![1, 2, 3]);
        s.permute(code);
        let v = s.to_vec();
        let mut sorted = v.clone();
        sorted.sort();
        assert_eq!(sorted, vec![1, 2, 3]);
        assert!(!seen.contains(&v));
        seen.push(v);
    }
    assert_eq!(seen.len(), 6);
}

#[test]
fn format_and_parse_decimal() {
    assert_eq!(chars_to_string(&format_i32(0)), "0");
    assert_eq!(chars_to_string(&format_i32(-123)), "-123");
    assert_eq!(chars_to_string(&format_i32(2147483647)), "2147483647");
    assert_eq!(chars_to_string(&format_i32(-2147483648)), "-2147483648");

    assert_eq!(parse_i32(&str_chars("42")), Some(42));
    assert_eq!(parse_i32(&str_chars("-17")), Some(-17));
    assert_eq!(parse_i32(&str_chars("+8")), Some(8));
    assert_eq!(parse_i32(&str_chars("")), None);
    assert_eq!(parse_i32(&str_chars("-")), None);
    assert_eq!(parse_i32(&str_chars("12a")), None);
    assert_eq!(parse_i32(&str_chars("2147483647")), Some(2147483647));
    assert_eq!(parse_i32(&str_chars("2147483648")), None);
    assert_eq!(parse_i32(&str_chars("-2147483648")), Some(-2147483648));
    assert_eq!(parse_i32(&str_chars("-2147483649")), None);
}

#[test]
fn saturating_and_guarded_arithmetic() {
    assert_eq!(sat_add_exec(i32::MAX, 1), i32::MAX);
    assert_eq!(sat_add_exec(i32::MIN, -1), i32::MIN);
    assert_eq!(sat_sub_exec(i32::MIN, 1), i32::MIN);
    assert_eq!(sat_mul_exec(65536, 65536), i32::MAX);
    assert_eq!(sat_mul_exec(-65536, 65536), i32::MIN);
    assert_eq!(div_op_exec(7, 0), 0);
    assert_eq!(div_op_exec(7, 2), 3);
    assert_eq!(div_op_exec(-7, 2), -3);
    assert_eq!(rem_op_exec(7, 0), 0);
    assert_eq!(rem_op_exec(7, 2), 1);
    assert_eq!(rem_op_exec(-7, 2), -1);
    assert_eq!(div_op_exec(i32::MIN, -1), 0);
}

#[test]
fn vector_rotations() {
    let mut v = FungeVector(1, 0);
    v.turn_left();
    assert_eq!(v, FungeVector(0, -1));
    v.turn_left();
    assert_eq!(v, FungeVector(-1, 0));
    let mut w = FungeVector(1, 0);
    w.turn_right();
    assert_eq!(w, FungeVector(0, 1));
    let mut r = FungeVector(3, -4);
    r.invert();
    assert_eq!(r, FungeVector(-3, 4));
    assert!(FungeVector(-1, 2).is_negative());
    assert!(!FungeVector(0, 0).is_negative());
}

#[test]
fn data_container_modes() {
    let mut d = befunge::data::FungeData::new();
    assert_eq!(d.pop(), 0);
    d.push(1);
    d.push(2);
    d.push(3);
    assert_eq!(d.len(), 3);
    assert_eq!(d.pop(), 3);
    d.queue_mode();
    assert_eq!(d.pop(), 1);
    d.stack_mode();
    assert_eq!(d.pop(), 2);
    d.push(5);
    d.clear();
    assert_eq!(d.len(), 0);
    assert_eq!(d.pop(), 0);
}

#[test]
fn data_container_permutes() {
    let mut d = befunge::data::FungeData::new();
    d.push(10);
    d.push(20);
    d.push(30);
    d.permute(1);
    assert_eq!(d.pop(), 20);
    assert_eq!(d.pop(), 30);
    assert_eq!(d.pop(), 10);
}

#[test]
fn direction_rotation_and_deltas() {
    let d = Direction::Up;
    assert!(matches!(d.next(), Direction::Right));
    assert!(matches!(d.next().next(), Direction::Down));
    assert_eq!(Direction::Up.as_delta(), (0, -1));
    assert_eq!(Direction::Left.as_delta(), (-1, 0));
    let def: Direction = Default::default();
    assert!(matches!(def, Direction::Right));
}

#[test]
fn delta_construction() {
    let d = Delta::new(2, -3);
    assert_eq!(d.x, 2);
    assert_eq!(d.y, -3);
    let def: Delta = Default::default();
    assert_eq!((def.x, def.y), (1, 0));
}

#[test]
fn state_lifecycle() {
    let mut s = FungeState::of(EndAt::Ticks(2), MoveType::Forward, OnTick::Nothing);
    assert!(matches!(s.movement(), MoveType::Forward));
    assert!(matches!(s.action(), OnTick::Nothing));
    assert!(!s.is_over('x'));
    s.tick();
    s.tick();
    assert!(s.is_over('x'));
    let marker = FungeState::of(EndAt::Char(';'), MoveType::Forward, OnTick::Nothing);
    assert!(!marker.is_over(';'));
    let mut m2 = marker;
    m2.tick();
    assert!(m2.is_over(';'));
    assert!(!m2.is_over('x'));
    let done = FungeState::of_message(EndAt::Never, MoveType::Halted, OnTick::Nothing, "over");
    assert!(done.is_end());
    let input = FungeState::of_message(EndAt::Manual, MoveType::Halted, OnTick::Nothing, "input num:");
    assert!(input.inputting_num());
    assert!(!input.inputting_char());
}

#[test]
fn string_values_round_trip_through_stack() {
    let mut ip = InstructionPointer::new(FungeVector(0, 0), FungeVector(1, 0), 0);
    ip.push_t::<String>("hi".to_string());
    let back: String = ip.pop_t();
    assert_eq!(back, "hi");
    let empty: String = ip.pop_t();
    assert_eq!(empty, "");
}

#[test]
fn vector_values_round_trip_through_stack() {
    let mut ip = InstructionPointer::new(FungeVector(0, 0), FungeVector(1, 0), 0);
    ip.push_t::<FungeVector>(FungeVector(4, 7));
    let v: FungeVector = ip.pop_t();
    assert_eq!(v, FungeVector(4, 7));
}

#[test]
fn iterator_yields_bottom_to_top() {
    let s = FungeStack::from_vec(vec![1, 2, 3]);
    let collected: Vec<i32> = s.iter().copied().collect();
    assert_eq!(collected, vec![1, 2, 3]);
    assert_eq!(s.len(), 3);
}
