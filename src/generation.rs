use crate::rule::{code, Rule};
use itertools::Itertools;
use vstd::arithmetic::div_mod::{
    lemma_add_mod_noop_right, lemma_mod_add_multiples_vanish, lemma_small_mod,
};
use vstd::prelude::*;

verus! {

/// The character that renders a cell: `'#'` when alive, a space when dead.
pub open spec fn cell_char(alive: bool) -> char {
    if alive {
        '#'
    } else {
        ' '
    }
}

/// The cells that a line of text stands for: `'#'` is alive, anything else dead.
pub open spec fn cells_of(line: Seq<char>) -> Seq<bool> {
    line.map_values(|c: char| c == '#')
}

/// The text of a row of cells.
pub open spec fn render(cells: Seq<bool>) -> Seq<char> {
    cells.map_values(|b: bool| cell_char(b))
}

/// A cyclic rotation by `k` positions to the right: item `i` moves to `i + k`.
pub open spec fn rotate_right<A>(s: Seq<A>, k: int) -> Seq<A> {
    Seq::new(s.len(), |i: int| s[(i - k) % (s.len() as int)])
}

/// One generation of the circular automaton: cell `k` looks up the code of
/// its left neighbour, itself and its right neighbour, the row wrapping round.
pub open spec fn step(cells: Seq<bool>, table: Seq<bool>) -> Seq<bool> {
    let w = cells.len() as int;
    Seq::new(
        cells.len(),
        |k: int| table[code(cells[(k - 1) % w], cells[k], cells[(k + 1) % w])],
    )
}

/// The line that follows `line` under a rule table.
pub open spec fn next_line(line: Seq<char>, table: Seq<bool>) -> Seq<char> {
    render(step(cells_of(line), table))
}

/// Generation `n` of a run that starts from `line`.
pub open spec fn generation(line: Seq<char>, table: Seq<bool>, n: nat) -> Seq<char>
    decreases n,
{
    if n == 0 {
        line
    } else {
        next_line(generation(line, table, (n - 1) as nat), table)
    }
}

/// The text of generations `1..=n`, each followed by a line break.
pub open spec fn history(line: Seq<char>, table: Seq<bool>, n: nat) -> Seq<char>
    decreases n,
{
    if n == 0 {
        Seq::empty()
    } else {
        history(line, table, (n - 1) as nat) + generation(line, table, n) + seq!['\n']
    }
}

/// A line brought to exactly `len` characters: cut, or padded with `fill`.
pub open spec fn fit_length(s: Seq<char>, len: nat, fill: char) -> Seq<char> {
    if s.len() > len {
        s.take(len as int)
    } else {
        s + Seq::new((len - s.len()) as nat, |i: int| fill)
    }
}

/// The default first generation: `width - 1` dead cells and one live cell last.
pub open spec fn default_line(width: nat) -> Seq<char> {
    Seq::new((width - 1) as nat, |i: int| ' ') + seq!['#']
}

/// `(x % m + y) % m == (x + y) % m`.
pub(crate) proof fn lemma_mod_shift(x: int, y: int, m: int)
    requires
        0 < m,
    ensures
        (x % m + y) % m == (x + y) % m,
{
    lemma_add_mod_noop_right(y, x, m);
}

/// Relies on `String::push`: the character is appended.
#[verifier::external_body]
pub(crate) fn push_char(s: &mut String, c: char)
    ensures
        final(s)@ == old(s)@.push(c),
{
    s.push(c)
}

/// Relies on `Itertools::circular_tuple_windows`: one window of three per
/// item, window `i` starting at item `i` and wrapping round the end.
#[verifier::external_body]
fn circular_windows(cells: &Vec<bool>) -> (r: Vec<(bool, bool, bool)>)
    ensures
        r@.len() == cells@.len(),
        forall|i: int|
            0 <= i < cells@.len() ==> #[trigger] r@[i] == (
                cells@[i],
                cells@[(i + 1) % (cells@.len() as int)],
                cells@[(i + 2) % (cells@.len() as int)],
            ),
{
    cells.iter().copied().circular_tuple_windows().collect()
}

/// Moves the last character to the front.
pub fn rotate(s: String) -> (r: String)
    ensures
        r@ == rotate_right(s@, 1),
{
    let n = s.as_str().unicode_len();
    if n == 0 {
        assert(rotate_right(s@, 1) =~= Seq::<char>::empty());
        return String::new();
    }
    let last = s.as_str().get_char(n - 1);
    let mut r = String::new();
    push_char(&mut r, last);
    r.append(s.as_str().substring_char(0, n - 1));
    assert forall|i: int| 0 <= i < n implies r@[i] == rotate_right(s@, 1)[i] by {
        if i == 0 {
            lemma_mod_add_multiples_vanish(-1, n as int);
            lemma_small_mod((n - 1) as nat, n as nat);
        } else {
            lemma_small_mod((i - 1) as nat, n as nat);
        }
    }
    assert(r@ =~= rotate_right(s@, 1));
    r
}

/// The cells of a line, in order.
fn cells(s: &str) -> (v: Vec<bool>)
    ensures
        v@ == cells_of(s@),
{
    let n = s.unicode_len();
    let mut v: Vec<bool> = Vec::new();
    let mut i: usize = 0;
    while i < n
        invariant
            i <= n,
            n == s@.len(),
            v@ == cells_of(s@.take(i as int)),
        decreases n - i,
    {
        let c = s.get_char(i);
        v.push(c == '#');
        i = i + 1;
        assert(cells_of(s@.take(i as int)) =~= cells_of(s@.take((i - 1) as int)).push(c == '#'));
    }
    assert(s@.take(n as int) =~= s@);
    v
}

/// Computes the next generation of `line` under `rule`.
pub fn compute_next_state(line: String, rule: &Rule) -> (r: String)
    ensures
        r@ == next_line(line@, rule@),
        r@.len() == line@.len(),
{
    let ghost orig = cells_of(line@);
    let rotated = rotate(line);
    let cs = cells(rotated.as_str());
    let windows = circular_windows(&cs);
    let ghost w = orig.len() as int;
    let mut out = String::new();
    let mut i: usize = 0;
    while i < windows.len()
        invariant
            i <= windows@.len(),
            windows@.len() == w,
            cs@ == cells_of(rotated@),
            rotated@ == rotate_right(line@, 1),
            orig == cells_of(line@),
            w == line@.len(),
            forall|j: int|
                0 <= j < w ==> #[trigger] windows@[j] == (
                    cs@[j],
                    cs@[(j + 1) % w],
                    cs@[(j + 2) % w],
                ),
            out@ == render(step(orig, rule@)).take(i as int),
        decreases windows@.len() - i,
    {
        let b = rule.check(windows[i]);
        proof {
            let k = i as int;
            lemma_mod_shift(k + 1, -1, w);
            lemma_mod_shift(k + 2, -1, w);
            lemma_small_mod(k as nat, w as nat);
            assert(cs@[(k + 1) % w] == orig[k]);
            assert(cs@[(k + 2) % w] == orig[(k + 1) % w]);
            assert(cs@[k] == orig[(k - 1) % w]);
        }
        push_char(&mut out, if b { '#' } else { ' ' });
        i = i + 1;
        assert(out@ =~= render(step(orig, rule@)).take(i as int));
    }
    assert(out@ =~= render(step(orig, rule@)));
    out
}

} // verus!
