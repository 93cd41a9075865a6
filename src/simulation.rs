use crate::generation::{
    compute_next_state, default_line, fit_length, generation, history, push_char,
};
use crate::rule::Rule;
use vstd::prelude::*;
use vstd::string::{StrSliceExecFns, StringExecFns};

verus! {

/// Brings `s` to exactly `len` characters: cut after `len` characters, or
/// padded at the end with `fill`.
pub fn ensure_length(s: String, len: usize, fill: char) -> (r: String)
    ensures
        r@ == fit_length(s@, len as nat, fill),
        r@.len() == len,
{
    let l = s.as_str().unicode_len();
    if l > len {
        let r = String::from_str(s.as_str().substring_char(0, len));
        assert(r@ =~= fit_length(s@, len as nat, fill));
        return r;
    }
    let mut r = s;
    let ghost s0 = r@;
    let mut i: usize = l;
    while i < len
        invariant
            l <= i <= len,
            l == s0.len(),
            r@ == s0 + Seq::new((i - l) as nat, |j: int| fill),
        decreases len - i,
    {
        push_char(&mut r, fill);
        i = i + 1;
        assert(r@ =~= s0 + Seq::new((i - l) as nat, |j: int| fill));
    }
    assert(r@ =~= fit_length(s0, len as nat, fill));
    r
}

/// The first generation of a run: the given line brought to `width`
/// characters, or else `width - 1` spaces and one `'#'`.
pub fn initial_line(start_line: Option<String>, width: usize) -> (r: String)
    requires
        width >= 1,
    ensures
        r@ == match start_line {
            Some(s) => fit_length(s@, width as nat, ' '),
            None => default_line(width as nat),
        },
        r@.len() == width,
{
    match start_line {
        Some(s) => ensure_length(s, width, ' '),
        None => {
            let r = ensure_length(String::new(), width - 1, ' ');
            let mut r = r;
            push_char(&mut r, '#');
            assert(r@ =~= default_line(width as nat));
            r
        },
    }
}

/// Appends to `out` generations `1..=height` of the run that starts from
/// `line`, each followed by a line break.
pub fn evolve(out: &mut String, line: String, rule: &Rule, height: usize)
    ensures
        final(out)@ == old(out)@ + history(line@, rule@, height as nat),
{
    let ghost start = line@;
    let ghost before = out@;
    let mut current = line;
    let mut i: usize = 0;
    while i < height
        invariant
            i <= height,
            current@ == generation(start, rule@, i as nat),
            out@ == before + history(start, rule@, i as nat),
        decreases height - i,
    {
        current = compute_next_state(current, rule);
        out.append(current.as_str());
        push_char(out, '\n');
        i = i + 1;
        assert(out@ =~= before + history(start, rule@, i as nat));
    }
}

/// The whole text of a run: the first generation and the `height` that
/// follow it, each on a line of its own.
pub fn simulate(line: String, rule: &Rule, height: usize) -> (r: String)
    ensures
        r@ == line@ + seq!['\n'] + history(line@, rule@, height as nat),
{
    let mut out = String::from_str(line.as_str());
    push_char(&mut out, '\n');
    evolve(&mut out, line, rule, height);
    out
}

} // verus!
