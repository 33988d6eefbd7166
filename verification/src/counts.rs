//! Occurrence counts of symbolic length names, in order of first occurrence.

use vstd::prelude::*;
use crate::text::decimal;

verus! {

/// A name and how often it has occurred.
pub type Tally = Seq<(Seq<char>, nat)>;

/// The first index at or after `i` whose entry has the name `name`, or the length.
pub open spec fn find_name(t: Tally, name: Seq<char>, i: int) -> int
    decreases t.len() - i,
{
    if 0 <= i < t.len() && t[i].0 != name {
        find_name(t, name, i + 1)
    } else {
        i
    }
}

/// `t` after one more occurrence of `name`: its count goes up by one, or it
/// joins the end with count one.
pub open spec fn bump(t: Tally, name: Seq<char>) -> Tally {
    let i = find_name(t, name, 0);
    if i < t.len() {
        t.update(i, (name, t[i].1 + 1))
    } else {
        t.push((name, 1))
    }
}

/// No name occurs twice and every count is positive.
pub open spec fn tally_wf(t: Tally) -> bool {
    &&& forall|i: int| 0 <= i < t.len() ==> (#[trigger] t[i]).1 > 0
    &&& forall|i: int, j: int| 0 <= i < j < t.len() ==> (#[trigger] t[i]).0 != (#[trigger] t[j]).0
}

/// The sum of all counts.
pub open spec fn tally_total(t: Tally) -> nat
    decreases t.len(),
{
    if t.len() == 0 {
        0
    } else {
        tally_total(t.drop_last()) + t.last().1
    }
}

/// The search stops at the first entry of that name, or at the end where there is none.
pub proof fn lemma_find_name(t: Tally, name: Seq<char>, i: int)
    requires
        0 <= i <= t.len(),
    ensures
        i <= find_name(t, name, i) <= t.len(),
        find_name(t, name, i) < t.len() ==> t[find_name(t, name, i)].0 == name,
        forall|j: int| i <= j < find_name(t, name, i) ==> (#[trigger] t[j]).0 != name,
    decreases t.len() - i,
{
    if i < t.len() && t[i].0 != name {
        lemma_find_name(t, name, i + 1);
    }
}

/// Counting one more occurrence keeps the tally well formed.
pub proof fn lemma_bump_wf(t: Tally, name: Seq<char>)
    requires
        tally_wf(t),
    ensures
        tally_wf(bump(t, name)),
{
    lemma_find_name(t, name, 0);
}

/// No count exceeds the total.
pub proof fn lemma_count_le_total(t: Tally, i: int)
    requires
        0 <= i < t.len(),
    ensures
        t[i].1 <= tally_total(t),
    decreases t.len(),
{
    if i < t.len() - 1 {
        lemma_count_le_total(t.drop_last(), i);
    }
}

proof fn lemma_total_update(t: Tally, i: int, e: (Seq<char>, nat))
    requires
        0 <= i < t.len(),
    ensures
        tally_total(t.update(i, e)) == tally_total(t) - t[i].1 + e.1,
    decreases t.len(),
{
    if i < t.len() - 1 {
        lemma_total_update(t.drop_last(), i, e);
        assert(t.update(i, e).drop_last() =~= t.drop_last().update(i, e));
    } else {
        assert(t.update(i, e).drop_last() =~= t.drop_last());
    }
}

/// Counting one more occurrence raises the total by one.
pub proof fn lemma_bump_total(t: Tally, name: Seq<char>)
    ensures
        tally_total(bump(t, name)) == tally_total(t) + 1,
{
    lemma_find_name(t, name, 0);
    let i = find_name(t, name, 0);
    if i < t.len() {
        lemma_total_update(t, i, (name, t[i].1 + 1));
    } else {
        assert(t.push((name, 1nat)).drop_last() =~= t);
    }
}

/// One term of a position subtitle: the bare name for a single occurrence,
/// else the count written in front of the name.
pub open spec fn term(e: (Seq<char>, nat)) -> Seq<char> {
    if e.1 == 1 {
        e.0
    } else {
        decimal(e.1) + e.0
    }
}

/// `acc` with `t` joined to it by a plus sign; `t` alone where `acc` is empty.
pub open spec fn joined(acc: Seq<char>, t: Seq<char>) -> Seq<char> {
    if acc.len() > 0 {
        acc.push('+') + t
    } else {
        t
    }
}

/// The subtitle made of `fixed` and of the first `n` entries of `t`.
pub open spec fn position_sub_upto(t: Tally, fixed: nat, n: int) -> Seq<char>
    decreases n,
{
    if n <= 0 {
        if fixed > 0 || t.len() == 0 {
            decimal(fixed)
        } else {
            Seq::empty()
        }
    } else {
        joined(position_sub_upto(t, fixed, n - 1), term(t[n - 1]))
    }
}

/// The position subtitle: the fixed total, left out where it is zero and
/// names are pending, then one term per name, in the order of `t`, joined
/// by plus signs.
pub open spec fn position_sub(t: Tally, fixed: nat) -> Seq<char> {
    position_sub_upto(t, fixed, t.len() as int)
}

/// A symbolic name and the number of its occurrences.
#[derive(Debug, Clone)]
pub struct VarCount {
    pub name: String,
    pub count: usize,
}

/// The names of the variable-length fields met so far, each with the number
/// of its occurrences, in the order in which the names first occurred.
#[derive(Debug, Clone)]
pub struct VarCounts {
    entries: Vec<VarCount>,
}

impl View for VarCounts {
    type V = Tally;

    closed spec fn view(&self) -> Tally {
        self.entries@.map_values(|e: VarCount| (e.name@, e.count as nat))
    }
}

impl VarCounts {
    /// No names yet.
    pub fn new() -> (c: VarCounts)
        ensures
            c@ == Tally::empty(),
            tally_wf(c@),
    {
        let c = VarCounts { entries: Vec::new() };
        assert(c@ =~= Tally::empty());
        c
    }

    /// The number of distinct names.
    pub fn len(&self) -> (n: usize)
        ensures
            n == self@.len(),
    {
        self.entries.len()
    }

    /// Whether no name has been counted.
    pub fn is_empty(&self) -> (b: bool)
        ensures
            b == (self@.len() == 0),
    {
        self.entries.len() == 0
    }

    /// The `i`-th name, in order of first occurrence.
    pub fn name(&self, i: usize) -> (name: &String)
        requires
            i < self@.len(),
        ensures
            name@ == self@[i as int].0,
    {
        &self.entries[i].name
    }

    /// The number of occurrences of the `i`-th name.
    pub fn count(&self, i: usize) -> (count: usize)
        requires
            i < self@.len(),
        ensures
            count == self@[i as int].1,
    {
        self.entries[i].count
    }

    /// Counts one more occurrence of `name`.
    pub fn add(&mut self, name: String)
        requires
            tally_total(old(self)@) < usize::MAX,
        ensures
            final(self)@ == bump(old(self)@, name@),
            tally_wf(old(self)@) ==> tally_wf(final(self)@),
    {
        proof {
            if tally_wf(self@) {
                lemma_bump_wf(self@, name@);
            }
        }
        let n: usize = self.entries.len();
        let mut i: usize = 0;
        while i < n && self.entries[i].name != name
            invariant
                n == self.entries@.len(),
                i <= n,
                find_name(self@, name@, 0) == find_name(self@, name@, i as int),
            decreases n - i,
        {
            i += 1;
        }
        if i < n {
            proof {
                lemma_count_le_total(self@, i as int);
            }
            let count: usize = self.entries[i].count + 1;
            self.entries.set(i, VarCount { name, count });
        } else {
            self.entries.push(VarCount { name, count: 1 });
        }
        assert(self@ =~= bump(old(self)@, name@));
    }
}

} // verus!
