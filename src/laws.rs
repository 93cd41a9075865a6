use crate::generation::{
    cell_char, cells_of, lemma_mod_shift, next_line, render, rotate_right, step,
};
use crate::rule::{code, rule_bit, rule_table};
use vstd::arithmetic::div_mod::lemma_mod_bound;
use vstd::prelude::*;

verus! {

proof fn lemma_code_range(left: bool, center: bool, right: bool)
    ensures
        0 <= code(left, center, right) < 8,
{
}

/// Stepping commutes with cyclic rotation of the cells.
proof fn lemma_step_rotate_cells(cells: Seq<bool>, table: Seq<bool>, k: int)
    ensures
        step(rotate_right(cells, k), table) == rotate_right(step(cells, table), k),
{
    let w = cells.len() as int;
    let lhs = step(rotate_right(cells, k), table);
    let rhs = rotate_right(step(cells, table), k);
    assert forall|i: int| 0 <= i < w implies lhs[i] == rhs[i] by {
        lemma_mod_bound(i - 1, w);
        lemma_mod_bound(i + 1, w);
        lemma_mod_bound(i - k, w);
        lemma_mod_shift(i - 1, -k, w);
        lemma_mod_shift(i + 1, -k, w);
        lemma_mod_shift(i - k, -1, w);
        lemma_mod_shift(i - k, 1, w);
        assert(i - 1 - k == i - k - 1);
        assert(i + 1 - k == i - k + 1);
    }
    assert(lhs =~= rhs);
}

/// The automaton is translation-invariant on its circle: rotating a line by
/// `k` positions and then taking the next generation gives the same line as
/// taking the next generation and then rotating it by `k`.
pub proof fn lemma_next_line_commutes_with_rotation(line: Seq<char>, table: Seq<bool>, k: int)
    ensures
        next_line(rotate_right(line, k), table) == rotate_right(next_line(line, table), k),
{
    let w = line.len() as int;
    assert(cells_of(rotate_right(line, k)) =~= rotate_right(cells_of(line), k)) by {
        assert forall|i: int| 0 <= i < w implies #[trigger] rotate_right(line, k)[i]
            == line[(i - k) % w] by {
            lemma_mod_bound(i - k, w);
        }
        assert forall|i: int| 0 <= i < w implies #[trigger] rotate_right(cells_of(line), k)[i]
            == cells_of(line)[(i - k) % w] by {
            lemma_mod_bound(i - k, w);
        }
    }
    lemma_step_rotate_cells(cells_of(line), table, k);
    let s = step(cells_of(line), table);
    assert forall|i: int| 0 <= i < w implies #[trigger] rotate_right(s, k)[i] == s[(i - k)
        % w] by {
        lemma_mod_bound(i - k, w);
    }
    assert(render(rotate_right(s, k)) =~= rotate_right(render(s), k));
}

/// Under rule 0 every line becomes all dead after one generation.
pub proof fn lemma_rule_zero_kills(line: Seq<char>)
    ensures
        next_line(line, rule_table(0)) == Seq::new(line.len(), |i: int| ' '),
{
    assert(forall|s: u8| #[trigger] ((0u8 >> s) & 1u8) == 0u8) by (bit_vector);
    let w = line.len() as int;
    let cs = cells_of(line);
    assert forall|i: int| 0 <= i < w implies #[trigger] next_line(line, rule_table(0))[i]
        == ' ' by {
        lemma_mod_bound(i - 1, w);
        lemma_mod_bound(i + 1, w);
        lemma_code_range(cs[(i - 1) % w], cs[i], cs[(i + 1) % w]);
    }
    assert(next_line(line, rule_table(0)) =~= Seq::new(line.len(), |i: int| ' '));
}

/// Under rule 255 every line becomes all alive after one generation.
pub proof fn lemma_rule_full_fills(line: Seq<char>)
    ensures
        next_line(line, rule_table(255)) == Seq::new(line.len(), |i: int| '#'),
{
    assert(forall|s: u8| s < 8 ==> #[trigger] ((255u8 >> s) & 1u8) == 1u8) by (bit_vector);
    let w = line.len() as int;
    let cs = cells_of(line);
    assert forall|i: int| 0 <= i < w implies #[trigger] next_line(line, rule_table(255))[i]
        == '#' by {
        lemma_mod_bound(i - 1, w);
        lemma_mod_bound(i + 1, w);
        lemma_code_range(cs[(i - 1) % w], cs[i], cs[(i + 1) % w]);
    }
    assert(next_line(line, rule_table(255)) =~= Seq::new(line.len(), |i: int| '#'));
}

/// A line of one cell is its own left and right neighbour: the next
/// generation reads that cell three times.
pub proof fn lemma_single_cell(line: Seq<char>, table: Seq<bool>)
    requires
        line.len() == 1,
    ensures
        next_line(line, table) == seq![
            cell_char(table[code(line[0] == '#', line[0] == '#', line[0] == '#')]),
        ],
{
    assert((0int - 1) % 1 == 0);
    assert((0int + 1) % 1 == 0);
    assert(next_line(line, table) =~= seq![
        cell_char(table[code(line[0] == '#', line[0] == '#', line[0] == '#')]),
    ]);
}

} // verus!
