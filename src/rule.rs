use vstd::prelude::*;

verus! {

/// Bit `i` of an elementary rule number.
pub open spec fn rule_bit(rule: u8, i: int) -> bool {
    ((rule >> (i as u8)) & 1u8) == 1u8
}

/// The neighbourhood code `left * 4 + center * 2 + right`.
pub open spec fn code(left: bool, center: bool, right: bool) -> int {
    (if left { 4int } else { 0int }) + (if center { 2int } else { 0int }) + (if right {
        1int
    } else {
        0int
    })
}

/// The lookup table of a rule number: entry `i` is bit `i` of the number.
pub open spec fn rule_table(rule: u8) -> Seq<bool> {
    Seq::new(8, |i: int| rule_bit(rule, i))
}

/// The next state of a cell for each of the eight neighbourhood codes.
pub struct Rule {
    rule: [bool; 8],
}

impl View for Rule {
    type V = Seq<bool>;

    closed spec fn view(&self) -> Seq<bool> {
        self.rule@
    }
}

impl Rule {
    /// Decodes a rule number into its table.
    pub fn new(rule: u8) -> (r: Rule)
        ensures
            r@ == rule_table(rule),
            forall|left: bool, center: bool, right: bool|
                #[trigger] r@[code(left, center, right)] == rule_bit(rule, code(left, center, right)),
    {
        let mut res = [false; 8];
        let mut i: u8 = 0;
        while i < 8
            invariant
                i <= 8,
                res@.len() == 8,
                forall|j: int| 0 <= j < i ==> res@[j] == rule_bit(rule, j),
            decreases 8 - i,
        {
            res[i as usize] = ((rule >> i) & 1u8) == 1u8;
            i = i + 1;
        }
        let r = Rule { rule: res };
        assert(r@ =~= rule_table(rule));
        r
    }

    /// The next state of a cell whose neighbourhood is `(left, center, right)`.
    pub fn check(&self, state: (bool, bool, bool)) -> (b: bool)
        ensures
            b == self@[code(state.0, state.1, state.2)],
    {
        let (a, b, c) = state;
        let key: usize = (if a { 4 } else { 0 }) + (if b { 2 } else { 0 }) + (if c { 1 } else { 0 });
        proof {
            assert(self.rule@.len() == 8);
        }
        self.rule[key]
    }
}

} // verus!
