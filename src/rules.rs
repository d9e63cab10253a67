use vstd::prelude::*;

verus! {

broadcast use {vstd::seq_lib::lemma_seq_contains_after_push, vstd::seq_lib::lemma_seq_empty_contains_nothing};

/// Number of entries of a rule table: one per neighbor count 0 ..= 26.
pub const TABLE_LEN: usize = 27;

/// The largest number of neighbors a cell can have.
pub const MAX_NEIGHBORS: u32 = 26;

/// What the rule table prescribes for a given neighbor count.
#[derive(Clone, Copy, Debug, PartialEq, Eq, Structural)]
pub enum Fate {
    /// The cell is dead in the next generation.
    Death,
    /// The cell keeps its current state.
    Survive,
    /// The cell is alive in the next generation.
    Birth,
}

/// The next state of a cell under fate `f`, given its current state.
pub open spec fn next_alive(f: Fate, alive: bool) -> bool {
    match f {
        Fate::Death => false,
        Fate::Survive => alive,
        Fate::Birth => true,
    }
}

/// The fate of neighbor count `n` for the given birth and survival counts.
/// A birth count brings the cell to life, whether it was dead or alive, also
/// when the count is listed for survival too; a count listed only for
/// survival keeps the cell as it is; any other count kills it.
pub open spec fn fate_for(birth: Seq<u32>, survive: Seq<u32>, n: int) -> Fate {
    if birth.contains(n as u32) {
        Fate::Birth
    } else if survive.contains(n as u32) {
        Fate::Survive
    } else {
        Fate::Death
    }
}

/// The full table built from the birth and survival counts.
pub open spec fn rule_table(birth: Seq<u32>, survive: Seq<u32>) -> Seq<Fate> {
    Seq::new(TABLE_LEN as nat, |n: int| fate_for(birth, survive, n))
}

/// True when every listed count is a possible neighbor count.
pub open spec fn counts_in_range(s: Seq<u32>) -> bool {
    forall|i: int| 0 <= i < s.len() ==> s[i] <= MAX_NEIGHBORS
}

/// The word that encodes a fate in the table handed to a device.
pub open spec fn fate_code(f: Fate) -> u32 {
    match f {
        Fate::Death => 0,
        Fate::Survive => 1,
        Fate::Birth => 2,
    }
}

impl Fate {
    /// The next state of a cell with this fate.
    pub fn apply(self, alive: bool) -> (r: bool)
        ensures
            r == next_alive(self, alive),
    {
        match self {
            Fate::Death => false,
            Fate::Survive => alive,
            Fate::Birth => true,
        }
    }

    /// The word that encodes this fate: 0 for death, 1 for survival, 2 for birth.
    pub fn code(self) -> (r: u32)
        ensures
            r == fate_code(self),
    {
        match self {
            Fate::Death => 0,
            Fate::Survive => 1,
            Fate::Birth => 2,
        }
    }
}

/// Why a rule table could not be built.
#[derive(Clone, Copy, Debug, PartialEq, Eq, Structural)]
pub enum RuleError {
    /// A listed count exceeds the largest possible neighbor count.
    CountOutOfRange { value: u32 },
}

/// An immutable table from neighbor count (0 ..= 26) to fate.
pub struct RuleSet {
    table: Vec<Fate>,
}

impl View for RuleSet {
    type V = Seq<Fate>;

    closed spec fn view(&self) -> Seq<Fate> {
        self.table@
    }
}

impl RuleSet {
    pub open spec fn wf(&self) -> bool {
        self@.len() == TABLE_LEN
    }

    /// Builds the table from the birth and survival counts. A count above 26
    /// is rejected; duplicates are harmless.
    pub fn new(birth: &Vec<u32>, survive: &Vec<u32>) -> (r: Result<RuleSet, RuleError>)
        ensures
            r is Ok <==> counts_in_range(birth@) && counts_in_range(survive@),
            r matches Ok(t) ==> t.wf() && t@ == rule_table(birth@, survive@),
            r matches Ok(t) ==> forall|n: int|
                0 <= n < TABLE_LEN && !birth@.contains(n as u32) && !survive@.contains(n as u32)
                    ==> t@[n] == Fate::Death,
            r matches Err(RuleError::CountOutOfRange { value }) ==> value > MAX_NEIGHBORS
                && (birth@.contains(value) || survive@.contains(value)),
    {
        let mut i: usize = 0;
        while i < birth.len()
            invariant
                0 <= i <= birth.len(),
                counts_in_range(birth@.take(i as int)),
            decreases birth.len() - i,
        {
            if birth[i] > MAX_NEIGHBORS {
                return Err(RuleError::CountOutOfRange { value: birth[i] });
            }
            assert(birth@.take(i as int + 1) =~= birth@.take(i as int).push(birth@[i as int]));
            i += 1;
        }
        assert(birth@.take(i as int) =~= birth@);
        let mut i: usize = 0;
        while i < survive.len()
            invariant
                0 <= i <= survive.len(),
                counts_in_range(birth@),
                counts_in_range(survive@.take(i as int)),
            decreases survive.len() - i,
        {
            if survive[i] > MAX_NEIGHBORS {
                return Err(RuleError::CountOutOfRange { value: survive[i] });
            }
            assert(survive@.take(i as int + 1) =~= survive@.take(i as int).push(survive@[i as int]));
            i += 1;
        }
        assert(survive@.take(i as int) =~= survive@);

        let mut table: Vec<Fate> = Vec::new();
        let mut n: usize = 0;
        while n < TABLE_LEN
            invariant
                0 <= n <= TABLE_LEN,
                table@.len() == n,
                forall|k: int| 0 <= k < n ==> table@[k] == Fate::Death,
            decreases TABLE_LEN - n,
        {
            table.push(Fate::Death);
            n += 1;
        }
        assert(survive@.take(0) =~= Seq::<u32>::empty());
        let mut i: usize = 0;
        while i < survive.len()
            invariant
                0 <= i <= survive.len(),
                counts_in_range(survive@),
                table@.len() == TABLE_LEN,
                forall|k: int| 0 <= k < TABLE_LEN ==> #[trigger] table@[k] == (
                    if survive@.take(i as int).contains(k as u32) { Fate::Survive } else { Fate::Death }),
            decreases survive.len() - i,
        {
            let c = survive[i];
            table.set(c as usize, Fate::Survive);
            assert(survive@.take(i as int + 1) =~= survive@.take(i as int).push(c));
            i += 1;
        }
        assert(survive@.take(i as int) =~= survive@);
        // Birth counts are written last, so that a count listed in both sets
        // is a birth count.
        assert(birth@.take(0) =~= Seq::<u32>::empty());
        let mut i: usize = 0;
        while i < birth.len()
            invariant
                0 <= i <= birth.len(),
                counts_in_range(birth@),
                table@.len() == TABLE_LEN,
                forall|k: int| 0 <= k < TABLE_LEN ==> #[trigger] table@[k] == (
                    if birth@.take(i as int).contains(k as u32) { Fate::Birth }
                    else if survive@.contains(k as u32) { Fate::Survive }
                    else { Fate::Death }),
            decreases birth.len() - i,
        {
            let c = birth[i];
            table.set(c as usize, Fate::Birth);
            assert(birth@.take(i as int + 1) =~= birth@.take(i as int).push(c));
            i += 1;
        }
        assert(birth@.take(i as int) =~= birth@);
        let r = RuleSet { table };
        assert(r@ =~= rule_table(birth@, survive@));
        Ok(r)
    }

    /// The fate that the table gives neighbor count `n`.
    pub fn fate(&self, n: u32) -> (r: Fate)
        requires
            self.wf(),
            n <= MAX_NEIGHBORS,
        ensures
            r == self@[n as int],
    {
        self.table[n as usize]
    }

    /// The table as words (see [`Fate::code`]), in neighbor-count order.
    pub fn to_words(&self) -> (r: Vec<u32>)
        requires
            self.wf(),
        ensures
            r@.len() == TABLE_LEN,
            forall|n: int| 0 <= n < TABLE_LEN ==> r@[n] == fate_code(#[trigger] self@[n]),
    {
        let mut r: Vec<u32> = Vec::new();
        let mut n: usize = 0;
        while n < TABLE_LEN
            invariant
                self.wf(),
                0 <= n <= TABLE_LEN,
                r@.len() == n,
                forall|k: int| 0 <= k < n ==> r@[k] == fate_code(#[trigger] self@[k]),
            decreases TABLE_LEN - n,
        {
            r.push(self.table[n].code());
            n += 1;
        }
        r
    }
}

} // verus!
