use flautomata::generation::{compute_next_state, rotate};
use flautomata::rule::Rule;
use flautomata::simulation::{ensure_length, evolve, initial_line, simulate};

fn run_text(rule: u8, width: usize, height: usize, start_line: Option<&str>) -> String {
    let line = initial_line(start_line.map(|s| s.to_string()), width);
    let rule = Rule::new(rule);
    simulate(line, &rule, height)
}

#[test]
fn rule_table_matches_bits_of_number() {
    for n in 0..=255u8 {
        let rule = Rule::new(n);
        for code in 0..8usize {
            let state = (code & 4 != 0, code & 2 != 0, code & 1 != 0);
            assert_eq!(rule.check(state), (n >> code) & 1 == 1);
        }
    }
}

#[test]
fn rule_110_check_values() {
    let rule = Rule::new(110);
    assert!(!rule.check((false, false, false)));
    assert!(rule.check((false, false, true)));
    assert!(rule.check((true, true, false)));
    assert!(!rule.check((true, true, true)));
}

#[test]
fn rotate_moves_last_to_front() {
    assert_eq!(rotate("abc".to_string()), "cab");
    assert_eq!(rotate("x".to_string()), "x");
    assert_eq!(rotate(String::new()), "");
}

#[test]
fn rule_110_single_step() {
    let rule = Rule::new(110);
    assert_eq!(compute_next_state("    #".to_string(), &rule), "   ##");
}

#[test]
fn step_keeps_width() {
    for n in [0u8, 30, 90, 110, 255] {
        let rule = Rule::new(n);
        for w in 1..10usize {
            let line = "# ".repeat(w)[..w].to_string();
            assert_eq!(compute_next_state(line, &rule).chars().count(), w);
        }
    }
}

#[test]
fn empty_row_stays_empty() {
    let rule = Rule::new(110);
    assert_eq!(compute_next_state(String::new(), &rule), "");
}

#[test]
fn step_commutes_with_rotation() {
    let rule = Rule::new(30);
    let line = "#  ## # ".to_string();
    let stepped_then_rotated = rotate(compute_next_state(line.clone(), &rule));
    let rotated_then_stepped = compute_next_state(rotate(line), &rule);
    assert_eq!(stepped_then_rotated, rotated_then_stepped);
}

#[test]
fn rule_0_kills_and_rule_255_fills() {
    let line = "# ## #".to_string();
    assert_eq!(compute_next_state(line.clone(), &Rule::new(0)), "      ");
    assert_eq!(compute_next_state(line, &Rule::new(255)), "######");
}

#[test]
fn single_cell_is_its_own_neighbour() {
    // code 7 (all alive) and code 0 (all dead)
    assert_eq!(compute_next_state("#".to_string(), &Rule::new(0b1000_0000)), "#");
    assert_eq!(compute_next_state("#".to_string(), &Rule::new(0b0111_1111)), " ");
    assert_eq!(compute_next_state(" ".to_string(), &Rule::new(1)), "#");
    assert_eq!(compute_next_state(" ".to_string(), &Rule::new(0b1111_1110)), " ");
}

#[test]
fn rule_110_width_5_height_0_default_line() {
    assert_eq!(run_text(110, 5, 0, None), "    #\n");
}

#[test]
fn rule_0_width_4_height_2_given_line() {
    assert_eq!(run_text(0, 4, 2, Some("# # ")), "# # \n    \n    \n");
}

#[test]
fn start_line_is_padded_or_cut() {
    assert_eq!(initial_line(Some("abc".to_string()), 5), "abc  ");
    assert_eq!(ensure_length("abcde".to_string(), 5, ' '), "abcde");
    assert_eq!(ensure_length("abcde".to_string(), 2, ' '), "ab");
    assert_eq!(ensure_length("abcde".to_string(), 8, ' '), "abcde   ");
    assert_eq!(ensure_length("ab".to_string(), 4, '.'), "ab..");
    assert_eq!(ensure_length("éßü".to_string(), 2, ' '), "éß");
}

#[test]
fn default_line_has_one_live_cell_at_the_right() {
    assert_eq!(initial_line(None, 1), "#");
    assert_eq!(initial_line(None, 4), "   #");
}

#[test]
fn evolve_appends_each_generation() {
    let rule = Rule::new(110);
    let mut out = "start\n".to_string();
    evolve(&mut out, "    #".to_string(), &rule, 2);
    assert_eq!(out, "start\n   ##\n  ###\n");
}

#[test]
fn rule_90_three_generations() {
    assert_eq!(
        run_text(90, 7, 3, Some("   #   ")),
        "   #   \n  # #  \n #   # \n# # # #\n"
    );
}
