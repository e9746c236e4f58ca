//! The local allocator: one storage slot for each local of a function.

use vstd::prelude::*;
use crate::bytecode::{FunctionDefinition, FunctionView};
use crate::error::{ErrorView, TranslateError};
use crate::lowered::{Slot, SlotView};

verus! {

/// The name at position `j` stands at an earlier position too.
pub open spec fn repeats_earlier(names: Seq<Seq<char>>, j: int) -> bool {
    exists|i: int| 0 <= i < j && names[i] == names[j]
}

/// The first position among the first `n` whose name repeats an earlier one.
pub open spec fn first_duplicate(names: Seq<Seq<char>>, n: int) -> Option<int>
    decreases n,
{
    if n <= 0 {
        None
    } else {
        match first_duplicate(names, n - 1) {
            Some(j) => Some(j),
            None => if repeats_earlier(names, n - 1) {
                Some(n - 1)
            } else {
                None
            },
        }
    }
}

/// The slots of a function: one for each local, formals first, each formal's
/// slot initialized from the argument at the formal's position. Two locals
/// of one name are refused.
pub open spec fn allocate_spec(f: FunctionView) -> Result<Seq<SlotView>, ErrorView> {
    let names = f.local_names();
    match first_duplicate(names, names.len() as int) {
        Some(j) => Err(ErrorView::DuplicateLocal { function: f.name, local: j as nat }),
        None => Ok(
            Seq::new(
                names.len(),
                |i: int|
                    SlotView {
                        name: names[i],
                        init: if i < f.signature.formals.len() {
                            Some(i as nat)
                        } else {
                            None
                        },
                    },
            ),
        ),
    }
}

/// The names of the slots, in slot order.
pub open spec fn slot_names(slots: Seq<SlotView>) -> Seq<Seq<char>> {
    slots.map_values(|s: SlotView| s.name)
}

/// Once a repeated name is found it stays the first one.
pub proof fn lemma_first_duplicate_stays(names: Seq<Seq<char>>, n: int, m: int)
    requires
        n <= m,
        first_duplicate(names, n) is Some,
    ensures
        first_duplicate(names, m) == first_duplicate(names, n),
    decreases m - n,
{
    if n < m {
        lemma_first_duplicate_stays(names, n, m - 1);
    }
}

/// Where no name repeats an earlier one, equal names stand at equal positions.
pub proof fn lemma_no_duplicate_distinct(names: Seq<Seq<char>>, n: int, i: int, j: int)
    requires
        first_duplicate(names, n) is None,
        0 <= i < n,
        0 <= j < n,
        names[i] == names[j],
    ensures
        i == j,
    decreases n,
{
    if i < n - 1 && j < n - 1 {
        lemma_no_duplicate_distinct(names, n - 1, i, j);
    } else if i != j {
        if i < j {
            assert(repeats_earlier(names, j));
        } else {
            assert(repeats_earlier(names, i));
        }
    }
}

/// Whether the name of slot `j` is that of an earlier slot.
fn repeats(slots: &Vec<Slot>, j: usize) -> (found: bool)
    requires
        j < slots.len(),
    ensures
        found == repeats_earlier(slot_names(slots@.map_values(|s: Slot| s@)), j as int),
{
    let ghost names = slot_names(slots@.map_values(|s: Slot| s@));
    let mut i: usize = 0;
    while i < j
        invariant
            i <= j,
            j < slots.len(),
            names == slot_names(slots@.map_values(|s: Slot| s@)),
            forall|k: int| 0 <= k < i ==> names[k] != names[j as int],
        decreases j - i,
    {
        if slots[i].name == slots[j].name {
            assert(names[i as int] == names[j as int]);
            return true;
        }
        i += 1;
    }
    false
}

/// The local allocator.
pub fn allocate_locals(f: &FunctionDefinition) -> (slots: Result<Vec<Slot>, TranslateError>)
    ensures
        match allocate_spec(f@) {
            Ok(s) => slots matches Ok(x) && x@.map_values(|s: Slot| s@) == s,
            Err(e) => slots matches Err(x) && x@ == e,
        },
{
    let ghost names = f@.local_names();
    let ghost formals = f@.signature.formals;
    let mut slots: Vec<Slot> = Vec::new();
    let mut i: usize = 0;
    while i < f.signature.formals.len()
        invariant
            i <= f.signature.formals.len(),
            formals == f@.signature.formals,
            formals.len() == f.signature.formals.len(),
            slots@.len() == i,
            forall|k: int|
                0 <= k < i ==> (#[trigger] slots@[k])@ == (SlotView { name: formals[k].name, init: Some(k as nat) }),
        decreases f.signature.formals.len() - i,
    {
        assert(formals[i as int] == f.signature.formals[i as int]@);
        slots.push(Slot { name: f.signature.formals[i].name.clone(), init: Some(i) });
        i += 1;
    }
    let n = i;
    let mut j: usize = 0;
    while j < f.body.locals.len()
        invariant
            j <= f.body.locals.len(),
            n == formals.len(),
            formals == f@.signature.formals,
            slots@.len() == n + j,
            forall|k: int|
                0 <= k < n ==> (#[trigger] slots@[k])@ == (SlotView { name: formals[k].name, init: Some(k as nat) }),
            forall|k: int|
                0 <= k < j ==> (#[trigger] slots@[n + k])@ == (SlotView { name: f.body.locals@[k]@, init: None }),
        decreases f.body.locals.len() - j,
    {
        slots.push(Slot { name: f.body.locals[j].clone(), init: None });
        j += 1;
    }
    let ghost views = slots@.map_values(|s: Slot| s@);
    proof {
        assert(f@.body.locals.len() == f.body.locals@.len());
        assert forall|k: int| 0 <= k < names.len() implies slot_names(views)[k] == names[k] by {
            if k < n {
                assert(slots@[k]@.name == formals[k].name);
            } else {
                assert(slots@[n + (k - n)]@.name == f.body.locals@[k - n]@);
            }
        }
        assert(slot_names(views) =~= names);
    }
    let mut d: usize = 0;
    while d < slots.len()
        invariant
            d <= slots.len(),
            views == slots@.map_values(|s: Slot| s@),
            slot_names(views) == names,
            names == f@.local_names(),
            names.len() == slots.len(),
            first_duplicate(names, d as int) is None,
        decreases slots.len() - d,
    {
        if repeats(&slots, d) {
            proof {
                assert(first_duplicate(names, d + 1) == Some(d as int));
                lemma_first_duplicate_stays(names, d + 1, names.len() as int);
            }
            return Err(TranslateError::DuplicateLocal { function: f.name.clone(), local: d });
        }
        d += 1;
    }
    proof {
        let expected = allocate_spec(f@)->Ok_0;
        assert(views.len() == expected.len());
        assert forall|k: int| 0 <= k < views.len() implies views[k] == expected[k] by {
            if k < n {
                assert(slots@[k]@.name == formals[k].name);
            } else {
                assert(slots@[n + (k - n)]@.name == f.body.locals@[k - n]@);
            }
        }
        assert(views =~= expected);
    }
    Ok(slots)
}

/// The slot that belongs to the local `name`.
pub fn slot_of(slots: &Vec<Slot>, name: &String) -> (slot: Option<usize>)
    ensures
        match slot_names(slots@.map_values(|s: Slot| s@)).index_of_first(name@) {
            Some(k) => slot matches Some(s) && s == k && 0 <= k < slots.len(),
            None => slot is None,
        },
{
    let ghost names = slot_names(slots@.map_values(|s: Slot| s@));
    let mut i: usize = 0;
    while i < slots.len()
        invariant
            i <= slots.len(),
            names == slot_names(slots@.map_values(|s: Slot| s@)),
            names.len() == slots.len(),
            forall|k: int| 0 <= k < i ==> names[k] != name@,
        decreases slots.len() - i,
    {
        if slots[i].name == *name {
            proof {
                assert(names[i as int] == name@);
                names.index_of_first_ensures(name@);
            }
            return Some(i);
        }
        i += 1;
    }
    proof {
        names.index_of_first_ensures(name@);
    }
    None
}

} // verus!
