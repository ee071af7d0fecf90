//! End-to-end tests of the engine: programs run tick by tick and the
//! resulting output, stacks and pointer lists are checked.

use befunge::arguments::Arguments;
use befunge::befunge::{Befunge, InputType};
use befunge::event::{Event, TickHandler};
use befunge::pointer::HostEnv;
use befunge::vector::FungeVector;

fn host_env() -> HostEnv {
    HostEnv { args_packed: "\0\0".to_string(), env_packed: "\0\0".to_string(), path_sep: '/' }
}

fn engine(prog: &str) -> Befunge {
    Befunge::new(Arguments::new("test".to_string()), prog.to_string(), host_env())
}

fn run(prog: &str, max_ticks: usize) -> Befunge {
    let mut b = engine(prog);
    let mut t = 0;
    while !b.ended() && t < max_ticks {
        b.tick();
        t += 1;
    }
    b
}

fn out_string(b: &Befunge) -> String {
    b.out.iter().collect()
}

fn toss(b: &Befunge, ip: usize) -> Vec<i32> {
    b.ip_list[ip].stacks[0].to_vec()
}

#[test]
fn addition_program_prints_five() {
    let b = run("23+.@", 10);
    assert!(b.ended());
    assert_eq!(out_string(&b), "5 ");
}

#[test]
fn arithmetic_pop_order() {
    // 8 2 / leaves 4: the second-popped value is the left operand.
    let b = run("82/.@", 10);
    assert_eq!(out_string(&b), "4 ");
    let c = run("93-.@", 10);
    assert_eq!(out_string(&c), "6 ");
    let d = run("25*.@", 10);
    assert_eq!(out_string(&d), "10 ");
}

#[test]
fn branch_east_on_zero() {
    let b = run("0_@", 10);
    assert!(b.ended());
    assert_eq!(b.ip_list[0].delta, FungeVector(1, 0));
}

#[test]
fn branch_west_on_nonzero() {
    let mut b = engine("1_@");
    b.tick();
    b.tick();
    assert_eq!(b.ip_list[0].delta, FungeVector(-1, 0));
}

#[test]
fn vertical_branch() {
    let b = run("0|@", 10);
    assert_eq!(b.ip_list[0].delta, FungeVector(0, 1));
    let mut c = engine("1|@");
    c.tick();
    c.tick();
    assert_eq!(c.ip_list[0].delta, FungeVector(0, -1));
}

#[test]
fn split_spawns_renumbered_twin() {
    let mut b = engine("1t@");
    b.tick();
    assert_eq!(b.ip_list.len(), 1);
    b.tick();
    assert_eq!(b.ip_list.len(), 2);
    assert_eq!(b.ip_list[0].id, 0);
    assert_eq!(b.ip_list[1].id, 1);
    assert_eq!(b.ip_list[1].delta, FungeVector(1, 0));
    assert_eq!(b.ip_list[0].delta, FungeVector(-1, 0));
    assert_eq!(b.ip_list[0].stacks[0].to_vec(), vec![1]);
    assert_eq!(b.ip_list[1].stacks[0].to_vec(), vec![1]);
}

#[test]
fn quit_kills_every_pointer() {
    let mut b = engine("t7q@");
    b.tick();
    b.tick();
    assert_eq!(b.ip_list.len(), 2);
    while !b.ended() && b.exit_code.is_none() {
        b.tick();
    }
    assert_eq!(b.exit_code, Some(7));
    assert!(b.ended());
}

#[test]
fn string_mode_pushes_character_codes() {
    let b = run("\"ab\"@", 10);
    assert!(b.ended());
    assert_eq!(toss(&b, 0), vec![97, 98]);
}

#[test]
fn string_mode_collapses_blank_runs() {
    let b = run("\"a   b\"@", 20);
    assert!(b.ended());
    assert_eq!(toss(&b, 0), vec![97, 32, 98]);
}

#[test]
fn trampoline_skips_one_cell() {
    let b = run("#1 2.@", 20);
    assert_eq!(out_string(&b), "2 ");
}

#[test]
fn blank_cells_pass_through() {
    let b = run("1  .@", 20);
    assert_eq!(out_string(&b), "1 ");
}

#[test]
fn marker_jump_skips_between_markers() {
    let b = run("1;23;.@", 20);
    assert_eq!(out_string(&b), "1 ");
}

#[test]
fn duplicate_and_swap_and_discard() {
    let b = run("5:+.@", 10);
    assert_eq!(out_string(&b), "10 ");
    let c = run("12\\.$@", 10);
    assert_eq!(out_string(&c), "1 ");
    let d = run("12$.@", 10);
    assert_eq!(out_string(&d), "1 ");
}

#[test]
fn comparison_pushes_one_when_greater() {
    let b = run("12`.@", 10);
    assert_eq!(out_string(&b), "0 ");
    let c = run("21`.@", 10);
    assert_eq!(out_string(&c), "1 ");
}

#[test]
fn logical_not() {
    let b = run("0!.@", 10);
    assert_eq!(out_string(&b), "1 ");
    let c = run("7!.@", 10);
    assert_eq!(out_string(&c), "0 ");
}

#[test]
fn hex_literals_push_values() {
    let b = run("af+.@", 10);
    assert_eq!(out_string(&b), "25 ");
}

#[test]
fn character_output() {
    let b = run("\"ih\",,@", 20);
    assert_eq!(out_string(&b), "hi");
}

#[test]
fn get_pushes_cell_code() {
    // g with (x, y) = (0, 0) reads the cell holding '0'.
    let b = run("00g.@", 20);
    assert_eq!(out_string(&b), "48 ");
}

#[test]
fn put_writes_through_grid() {
    // Write 'A' (65) at (6, 0), then read it back with g.
    let b = run("\"A\"61p61g.@", 30);
    assert_eq!(out_string(&b), "65 ");
}

#[test]
fn put_out_of_bounds_expands() {
    let b = run("\"A\"90p@", 30);
    assert!(b.grid.width() >= 10);
    assert_eq!(b.grid.char_at(FungeVector(9, 0)), 'A');
}

#[test]
fn store_character_ahead() {
    // s pops 'x' and writes it into the cell ahead, then steps onto it.
    let b = run("\"x\"s @", 30);
    assert_eq!(b.grid.char_at(FungeVector(4, 0)), 'x');
}

#[test]
fn fetch_character_pushes_next_cell() {
    let b = run("'Q.@", 20);
    assert_eq!(out_string(&b), "81 ");
}

#[test]
fn jump_forward_skips_cells() {
    let b = run("1j 2.@", 20);
    assert_eq!(out_string(&b), "2 ");
}

#[test]
fn iterate_executes_instruction_in_place() {
    let b = run("3k1....@", 30);
    // k runs the literal three times; execution continues on it for a fourth push.
    assert_eq!(out_string(&b), "1 1 1 1 ");
}

#[test]
fn iterate_zero_skips_instruction() {
    let b = run("0k1.@", 20);
    assert_eq!(out_string(&b), "0 ");
}

#[test]
fn clear_empties_stack() {
    let b = run("123n.@", 20);
    assert_eq!(out_string(&b), "0 ");
}

#[test]
fn permute_opcode_reorders_stack() {
    // Stack 1 2 3, rank 1 swaps the top two values.
    let c = run("123 1l@", 40);
    assert_eq!(toss(&c, 0), vec![1, 3, 2]);
}

#[test]
fn begin_and_end_block_transfer_values() {
    // { moves one value to a fresh stack; } moves it back.
    let mut b = run("12 1{ @", 30);
    assert_eq!(b.ip_list[0].stacks.len(), 2);
    assert_eq!(b.ip_list[0].stacks[0].to_vec(), vec![2]);
    b = run("12 1{1} @", 30);
    assert_eq!(b.ip_list[0].stacks.len(), 1);
    assert_eq!(toss(&b, 0), vec![1, 2]);
}

#[test]
fn end_block_on_base_stack_reflects() {
    let b = run("}@", 10);
    assert_eq!(b.ip_list[0].delta, FungeVector(-1, 0));
}

#[test]
fn stack_under_stack_reflects_on_base() {
    let b = run("u@", 10);
    assert_eq!(b.ip_list[0].delta, FungeVector(-1, 0));
}

#[test]
fn unknown_instruction_reflects() {
    let b = run("G@", 10);
    assert_eq!(b.ip_list[0].delta, FungeVector(-1, 0));
}

#[test]
fn random_delta_is_cardinal() {
    for _ in 0..20 {
        let mut b = engine("?@");
        b.tick();
        let d = b.ip_list[0].delta;
        let cardinal = [
            FungeVector(0, -1),
            FungeVector(0, 1),
            FungeVector(1, 0),
            FungeVector(-1, 0),
        ];
        assert!(cardinal.contains(&d));
    }
}

#[test]
fn sysinfo_dimension_fact() {
    let b = run("7y@", 20);
    assert_eq!(toss(&b, 0), vec![2]);
}

#[test]
fn sysinfo_greater_selector_discards() {
    // Selector 85 discards 65 values, emptying the stack.
    let c = run("123 99*4+y@", 40);
    assert_eq!(toss(&c, 0), vec![]);
}

#[test]
fn input_request_pauses_for_host() {
    let mut b = engine("&.@");
    b.tick();
    assert!(matches!(b.pending_input, Some((InputType::Number, 0))));
    assert!(b.paused());
    b.provide_input(42);
    assert!(b.pending_input.is_none());
    while !b.ended() {
        b.tick();
    }
    assert_eq!(out_string(&b), "42 ");
}

#[test]
fn file_read_request_reaches_host() {
    let mut c = engine("1300\"f\"i@");
    let mut req = None;
    for _ in 0..20 {
        c.tick();
        req = c.next_host_request();
        if req.is_some() {
            break;
        }
    }
    match req {
        Some(Event::ReadFile(name, binary, dest, id)) => {
            assert_eq!(name, "f");
            assert!(!binary);
            assert_eq!(dest, FungeVector(1, 3));
            assert_eq!(id, 0);
        },
        other => panic!("no read request: {:?}", other),
    }
}

#[test]
fn missing_file_reflects_pointer() {
    let mut b = engine("1300\"f\"i@");
    for _ in 0..20 {
        b.tick();
        if b.next_host_request().is_some() {
            break;
        }
    }
    b.deliver_file_input(FungeVector(1, 3), false, None, 0);
    assert_eq!(b.ip_list[0].delta, FungeVector(-1, 0));
}

#[test]
fn delivered_file_lands_in_grid() {
    let mut b = engine("0100\"f\"i@");
    for _ in 0..20 {
        b.tick();
        if b.next_host_request().is_some() {
            break;
        }
    }
    b.deliver_file_input(FungeVector(0, 1), false, Some("XY".to_string()), 0);
    assert_eq!(b.grid.char_at(FungeVector(0, 1)), 'X');
    assert_eq!(b.grid.char_at(FungeVector(1, 1)), 'Y');
}

#[test]
fn restart_restores_everything() {
    let mut b = engine("23+.9 0p@");
    while !b.ended() {
        b.tick();
    }
    assert_eq!(out_string(&b), "5 ");
    b.restart();
    assert_eq!(out_string(&b), "");
    assert_eq!(b.ip_list.len(), 1);
    assert_eq!(b.ip_list[0].pos, FungeVector(0, 0));
    assert_eq!(b.ip_list[0].delta, FungeVector(1, 0));
    assert_eq!(b.ip_list[0].stacks.len(), 1);
    assert_eq!(toss(&b, 0), vec![]);
    assert_eq!(b.grid.char_at(FungeVector(0, 0)), '2');
    assert!(!b.ip_list[0].dead);
    // The program runs identically after the reset.
    while !b.ended() {
        b.tick();
    }
    assert_eq!(out_string(&b), "5 ");
}

#[test]
fn tick_handler_bounds() {
    let mut t = TickHandler::new();
    assert_eq!(t.tickrate_ms, 128);
    for _ in 0..10 {
        t.speed_up();
    }
    assert_eq!(t.tickrate_ms, 16);
    for _ in 0..10 {
        t.slow_down();
    }
    assert_eq!(t.tickrate_ms, 1024);
    assert!(!t.has_tick());
    t.post_tick();
    t.post_tick();
    assert!(t.has_tick());
    assert!(t.has_tick());
    assert!(!t.has_tick());
}

#[test]
fn input_type_parsing() {
    assert_eq!(InputType::Number.parse("42"), 42);
    assert_eq!(InputType::Number.parse("oops"), 0);
    assert_eq!(InputType::Character.parse("x"), 120);
    assert_eq!(InputType::Character.parse("xy"), 0);
    assert!(InputType::Number.can_parse("-7"));
    assert!(!InputType::Number.can_parse("7a"));
    assert!(InputType::Character.can_parse("q"));
    assert!(!InputType::Character.can_parse(""));
}

#[test]
fn stack_under_stack_transfers_values() {
    let b = run("12 1{1u @", 30);
    assert_eq!(b.ip_list[0].stacks.len(), 2);
    assert_eq!(toss(&b, 0), vec![2, 0]);
    assert_eq!(b.ip_list[0].stacks[1].to_vec(), vec![1, 0]);
}

#[test]
fn compare_turns_by_order() {
    // a < b turns left: east becomes north.
    let mut b = engine("12w@");
    b.tick();
    b.tick();
    b.tick();
    assert_eq!(b.ip_list[0].delta, FungeVector(0, -1));
    // a > b turns right: east becomes south.
    let mut c = engine("21w@");
    c.tick();
    c.tick();
    c.tick();
    assert_eq!(c.ip_list[0].delta, FungeVector(0, 1));
    // equal operands keep the delta.
    let mut d = engine("11w@");
    d.tick();
    d.tick();
    d.tick();
    assert_eq!(d.ip_list[0].delta, FungeVector(1, 0));
}

#[test]
fn absolute_delta_pops_coordinates() {
    let mut b = engine("21x@");
    b.tick();
    b.tick();
    b.tick();
    assert_eq!(b.ip_list[0].delta, FungeVector(2, 1));
}

#[test]
fn character_input_request() {
    let mut b = engine("~,@");
    b.tick();
    assert!(matches!(b.pending_input, Some((InputType::Character, 0))));
    b.provide_input(65);
    while !b.ended() {
        b.tick();
    }
    assert_eq!(out_string(&b), "A");
}

#[test]
fn execute_request_reaches_host() {
    let mut b = engine("0\"x\"=@");
    let mut req = None;
    for _ in 0..20 {
        b.tick();
        req = b.next_host_request();
        if req.is_some() {
            break;
        }
    }
    match req {
        Some(Event::Execute(cmd, id)) => {
            assert_eq!(cmd, "x");
            assert_eq!(id, 0);
        },
        other => panic!("no execute request: {:?}", other),
    }
    b.deliver_exit_code(3, 0);
    assert_eq!(toss(&b, 0), vec![3]);
}

#[test]
fn write_file_request_carries_region() {
    // o pops the name, a flag and two corners, and sends the region text.
    let mut b = engine("110000\"f\"o@\nab");
    let mut req = None;
    for _ in 0..40 {
        b.tick();
        req = b.next_host_request();
        if req.is_some() {
            break;
        }
    }
    match req {
        Some(Event::WriteFile(name, text, id)) => {
            assert_eq!(name, "f");
            assert_eq!(text, "11\nab\n");
            assert_eq!(id, 0);
        },
        other => panic!("no write request: {:?}", other),
    }
}

#[test]
fn sysinfo_identity_and_position_facts() {
    let b = run("8y@", 20);
    assert_eq!(toss(&b, 0), vec![0]);
    let c = run("ay@", 20);
    assert_eq!(toss(&c, 0), vec![1, 0]);
}

#[test]
fn sysinfo_push_all_facts() {
    let b = run("0y@", 20);
    let t = toss(&b, 0);
    // 20 facts for one pointer with one stack and the test host's packed
    // argument and environment strings.
    assert_eq!(t.len(), 29);
    assert_eq!(t[t.len() - 1], 31);
    assert_eq!(t[t.len() - 2], 4);
    assert_eq!(t[t.len() - 3], 0x52464E47);
}

#[test]
fn motion_arrows_cycle_around() {
    let mut b = engine("v<\n>^");
    for _ in 0..5 {
        b.tick();
    }
    // After a full circuit of the arrows the pointer is back at the start.
    assert_eq!(b.ip_list[0].pos, FungeVector(0, 0));
    assert_eq!(b.ip_list[0].delta, FungeVector(0, 1));
    assert!(!b.ended());
}
