//! The list of extensions that are loaded into every new connection.
//!
//! An extension is known by the address of its entry point. This module keeps
//! the list and decides in which order the entry points are called and when
//! the calls stop; calling them is left to the code that owns the
//! connection.

use vstd::prelude::*;

verus! {

/// The result code of a call that succeeded.
pub const SQLITE_OK: i32 = 0;

/// How the calls of the registered entry points go on.
#[derive(Debug, Clone, Copy, PartialEq, Eq, Structural)]
pub enum AutoExtensionStep {
    /// Call the entry point at this address next.
    Call(usize),
    /// Call no more entry points, and report this result code.
    Return(i32),
}

/// The list without `entry`.
pub open spec fn without(list: Seq<usize>, entry: usize) -> Seq<usize> {
    list.filter(|e: usize| e != entry)
}

/// What `invoke_auto_extensions` decides after `called` entry points have
/// been called, the last of them with the result `last_rc`.
pub open spec fn spec_next_step(list: Seq<usize>, called: int, last_rc: i32) -> AutoExtensionStep {
    if called > 0 && last_rc != SQLITE_OK {
        AutoExtensionStep::Return(last_rc)
    } else if called < list.len() {
        AutoExtensionStep::Call(list[called])
    } else {
        AutoExtensionStep::Return(SQLITE_OK)
    }
}

/// Decides whether `entry` is in the list.
fn is_registered(list: &Vec<usize>, entry: usize) -> (r: bool)
    ensures
        r == list@.contains(entry),
{
    let mut i: usize = 0;
    while i < list.len()
        invariant
            i <= list.len(),
            forall|j: int| 0 <= j < i ==> list@[j] != entry,
        decreases list.len() - i,
    {
        if list[i] == entry {
            return true;
        }
        i += 1;
    }
    false
}

/// Adds an entry point to the list, at the end, unless it is there already.
/// Always succeeds.
pub fn register_auto_extension(list: &mut Vec<usize>, entry: usize) -> (rc: i32)
    ensures
        rc == SQLITE_OK,
        old(list)@.contains(entry) ==> final(list)@ == old(list)@,
        !old(list)@.contains(entry) ==> final(list)@ == old(list)@.push(entry),
        old(list)@.no_duplicates() ==> final(list)@.no_duplicates(),
{
    if is_registered(list, entry) {
        return SQLITE_OK;
    }
    list.push(entry);
    SQLITE_OK
}

/// Takes an entry point off the list, and keeps the others in their order.
/// Returns 1 if it was there, 0 if not.
pub fn cancel_auto_extension(list: &mut Vec<usize>, entry: usize) -> (removed: i32)
    ensures
        final(list)@ == without(old(list)@, entry),
        !final(list)@.contains(entry),
        removed == if old(list)@.contains(entry) {
            1i32
        } else {
            0i32
        },
{
    let mut kept: Vec<usize> = Vec::new();
    let mut i: usize = 0;
    proof {
        reveal(Seq::filter);
        assert(list@.subrange(0, 0) =~= Seq::<usize>::empty());
    }
    while i < list.len()
        invariant
            i <= list.len(),
            list@ == old(list)@,
            kept@ == without(list@.subrange(0, i as int), entry),
            kept@.len() == i <==> !list@.subrange(0, i as int).contains(entry),
            kept@.len() <= i,
            forall|j: int| 0 <= j < kept@.len() ==> kept@[j] != entry,
        decreases list.len() - i,
    {
        proof {
            reveal(Seq::filter);
            let shorter = list@.subrange(0, i as int);
            let longer = list@.subrange(0, i + 1);
            assert(longer.drop_last() =~= shorter);
            assert(longer.last() == list@[i as int]);
            if shorter.contains(entry) {
                let at = choose|at: int| 0 <= at < shorter.len() && shorter[at] == entry;
                assert(longer[at] == entry);
            }
            if longer.contains(entry) && list@[i as int] != entry {
                let at = choose|at: int| 0 <= at < longer.len() && longer[at] == entry;
                assert(shorter[at] == entry);
            }
        }
        if list[i] != entry {
            kept.push(list[i]);
        }
        i += 1;
    }
    proof {
        assert(list@.subrange(0, i as int) =~= list@);
    }
    let removed: i32 = if kept.len() != list.len() {
        1
    } else {
        0
    };
    *list = kept;
    removed
}

/// Takes every entry point off the list.
pub fn reset_auto_extensions(list: &mut Vec<usize>)
    ensures
        final(list)@ == Seq::<usize>::empty(),
{
    list.clear();
}

/// Decides how the calls of the registered entry points go on, after
/// `called` of them have been called in the order of the list and the last
/// one has returned `last_rc`: the first result that is not `SQLITE_OK` ends
/// the calls and is reported; after the last entry point `SQLITE_OK` is.
pub fn invoke_auto_extensions(list: &Vec<usize>, called: usize, last_rc: i32) -> (step:
    AutoExtensionStep)
    requires
        called <= list.len(),
    ensures
        step == spec_next_step(list@, called as int, last_rc),
{
    if called > 0 && last_rc != SQLITE_OK {
        AutoExtensionStep::Return(last_rc)
    } else if called < list.len() {
        AutoExtensionStep::Call(list[called])
    } else {
        AutoExtensionStep::Return(SQLITE_OK)
    }
}

} // verus!
