//! The local pool of sandbox boxes: boxes ready for use are handed out
//! first come first served, a released box is cleaned and re-initialised
//! before it is ready again, and a box that fails to re-initialise leaves
//! the pool.
use vstd::prelude::*;

verus! {

/// How many boxes the local pool initialises.
pub const LOCAL_POOL_SIZE: u16 = 25;

/// Why the pool could not start.
#[derive(Clone, Copy, Debug, PartialEq, Eq, Structural)]
pub enum PoolError {
    /// No box could be initialised.
    NoBoxes,
}

/// The boxes of the local pool and where each one is.
pub struct LocalSandboxPool {
    /// Boxes ready for use, the next to hand out first.
    ready: Vec<u16>,
    /// Released boxes waiting to be cleaned, the first released first.
    cleanup: Vec<u16>,
    /// Boxes handed out and not yet released.
    held: Ghost<Set<u16>>,
    /// Boxes being cleaned and re-initialised.
    recycling: Ghost<Set<u16>>,
    /// How many boxes the pool was started with: boxes `0` to one less.
    capacity: Ghost<nat>,
}

/// Whether no box occurs twice in `s`.
pub open spec fn no_duplicates(s: Seq<u16>) -> bool {
    forall|i: int, j: int| 0 <= i < j < s.len() ==> s[i] != s[j]
}

/// The box numbers below `n` whose initialisation succeeded, in order.
pub open spec fn initialised_boxes(init_ok: Seq<bool>) -> Seq<u16>
    decreases init_ok.len(),
{
    if init_ok.len() == 0 {
        Seq::empty()
    } else if init_ok.last() {
        initialised_boxes(init_ok.drop_last()).push((init_ok.len() - 1) as u16)
    } else {
        initialised_boxes(init_ok.drop_last())
    }
}

/// The boxes whose initialisation succeeded, in box order: box `i` is the
/// `i`-th entry of `init_ok`.
pub fn initialised_box_ids(init_ok: &Vec<bool>) -> (ready: Vec<u16>)
    requires
        init_ok@.len() <= 65536,
    ensures
        ready@ == initialised_boxes(init_ok@),
        forall|k: int| 0 <= k < ready@.len() ==> (#[trigger] ready@[k]) < init_ok@.len(),
        no_duplicates(ready@),
{
    let mut ready: Vec<u16> = Vec::new();
    let mut i: usize = 0;
    assert(init_ok@.subrange(0, 0) =~= Seq::<bool>::empty());
    while i < init_ok.len()
        invariant
            i <= init_ok@.len() <= 65536,
            ready@ == initialised_boxes(init_ok@.subrange(0, i as int)),
            forall|k: int| 0 <= k < ready@.len() ==> (#[trigger] ready@[k]) < i,
            no_duplicates(ready@),
        decreases init_ok.len() - i,
    {
        proof {
            assert(init_ok@.subrange(0, i + 1).drop_last() =~= init_ok@.subrange(0, i as int));
            assert(init_ok@.subrange(0, i + 1).last() == init_ok@[i as int]);
        }
        if init_ok[i] {
            ready.push(i as u16);
        }
        i = i + 1;
    }
    assert(init_ok@.subrange(0, i as int) =~= init_ok@);
    ready
}

impl LocalSandboxPool {
    /// Boxes ready for use, the next to hand out first.
    pub closed spec fn ready_boxes(&self) -> Seq<u16> {
        self.ready@
    }

    /// Released boxes waiting to be cleaned, the first released first.
    pub closed spec fn cleanup_boxes(&self) -> Seq<u16> {
        self.cleanup@
    }

    /// Boxes handed out and not yet released.
    pub closed spec fn held_boxes(&self) -> Set<u16> {
        self.held@
    }

    /// Boxes being cleaned and re-initialised.
    pub closed spec fn recycling_boxes(&self) -> Set<u16> {
        self.recycling@
    }

    /// How many boxes the pool was started with.
    pub closed spec fn box_count(&self) -> nat {
        self.capacity@
    }

    /// Every box is one the pool was started with, and in one place at a
    /// time: ready, waiting for cleanup, being recycled or held; and no box
    /// is ready or waiting twice.
    pub open spec fn wf(&self) -> bool {
        &&& forall|b: u16| #[trigger] self.ready_boxes().contains(b) ==> b < self.box_count()
        &&& forall|b: u16| #[trigger] self.cleanup_boxes().contains(b) ==> b < self.box_count()
        &&& forall|b: u16| #[trigger] self.held_boxes().contains(b) ==> b < self.box_count()
        &&& forall|b: u16| #[trigger] self.recycling_boxes().contains(b) ==> b < self.box_count()
        &&& no_duplicates(self.ready_boxes())
        &&& no_duplicates(self.cleanup_boxes())
        &&& forall|b: u16| self.ready_boxes().contains(b) ==> !self.cleanup_boxes().contains(b)
            && !self.held_boxes().contains(b) && !self.recycling_boxes().contains(b)
        &&& forall|b: u16| self.cleanup_boxes().contains(b) ==> !self.held_boxes().contains(b)
            && !self.recycling_boxes().contains(b)
        &&& forall|b: u16| self.held_boxes().contains(b) ==> !self.recycling_boxes().contains(b)
    }

    /// A pool whose ready boxes are those whose initialisation succeeded,
    /// in box order; refused when none did. Box `i` is the `i`-th entry
    /// of `init_ok`.
    pub fn new(init_ok: &Vec<bool>) -> (r: Result<LocalSandboxPool, PoolError>)
        requires
            init_ok@.len() <= 65536,
        ensures
            match r {
                Ok(p) => p.wf() && p.ready_boxes() == initialised_boxes(init_ok@)
                    && p.box_count() == init_ok@.len()
                    && p.ready_boxes().len() > 0 && p.cleanup_boxes().len() == 0
                    && p.held_boxes().is_empty() && p.recycling_boxes().is_empty(),
                Err(e) => e == PoolError::NoBoxes && initialised_boxes(init_ok@).len() == 0,
            },
    {
        let ready = initialised_box_ids(init_ok);
        if ready.len() == 0 {
            return Err(PoolError::NoBoxes);
        }
        Ok(
            LocalSandboxPool {
                ready,
                cleanup: Vec::new(),
                held: Ghost(Set::empty()),
                recycling: Ghost(Set::empty()),
                capacity: Ghost(init_ok@.len()),
            },
        )
    }

    /// Hands out the next ready box, if there is one; the caller waits for
    /// one otherwise.
    pub fn acquire(&mut self) -> (r: Option<u16>)
        ensures
            final(self).box_count() == old(self).box_count(),
            old(self).ready_boxes().len() == 0 ==> r is None && *final(self) == *old(self),
            old(self).ready_boxes().len() > 0 ==> r == Some(old(self).ready_boxes()[0])
                && final(self).ready_boxes() == old(self).ready_boxes().drop_first()
                && final(self).held_boxes() == old(self).held_boxes().insert(
                old(self).ready_boxes()[0],
            ) && final(self).cleanup_boxes() == old(self).cleanup_boxes()
                && final(self).recycling_boxes() == old(self).recycling_boxes(),
            old(self).wf() ==> final(self).wf(),
            old(self).wf() ==> (r matches Some(b) ==> !old(self).held_boxes().contains(b) && b
                < old(self).box_count()),
    {
        if self.ready.len() == 0 {
            return None;
        }
        let ghost before = self.ready@;
        let b = self.ready.remove(0);
        assert(self.ready@ =~= before.drop_first());
        self.held = Ghost(self.held@.insert(b));
        proof {
            if old(self).wf() {
                assert(before.contains(b));
                assert forall|x: u16| self.ready@.contains(x) implies x != b && x < self.capacity@ by {
                    let k = choose|k: int| 0 <= k < self.ready@.len() && self.ready@[k] == x;
                    assert(before[k + 1] == x);
                    assert(old(self).ready_boxes().contains(x));
                }
                assert(old(self).ready_boxes().contains(b));
                assert forall|x: u16| #[trigger] self.held@.contains(x) implies x < self.capacity@ by {
                    if x != b {
                        assert(old(self).held_boxes().contains(x));
                    }
                }
            }
        }
        Some(b)
    }

    /// Returns a box for cleaning.
    pub fn release(&mut self, box_id: u16)
        ensures
            final(self).box_count() == old(self).box_count(),
            final(self).cleanup_boxes() == old(self).cleanup_boxes().push(box_id),
            final(self).held_boxes() == old(self).held_boxes().remove(box_id),
            final(self).ready_boxes() == old(self).ready_boxes(),
            final(self).recycling_boxes() == old(self).recycling_boxes(),
            old(self).wf() && old(self).held_boxes().contains(box_id) ==> final(self).wf(),
    {
        self.cleanup.push(box_id);
        self.held = Ghost(self.held@.remove(box_id));
        proof {
            if old(self).wf() && old(self).held_boxes().contains(box_id) {
                assert forall|i: int, j: int| 0 <= i < j < self.cleanup@.len() implies self.cleanup@[i]
                    != self.cleanup@[j] by {
                    if j == self.cleanup@.len() - 1 {
                        assert(old(self).cleanup@.contains(self.cleanup@[i]));
                    }
                }
                assert forall|x: u16| #[trigger] self.cleanup@.contains(x) implies x < self.capacity@
                    && !self.held@.contains(x) && !self.recycling@.contains(x) by {
                    if x != box_id {
                        let k = choose|k: int| 0 <= k < self.cleanup@.len() && self.cleanup@[k] == x;
                        assert(old(self).cleanup@[k] == x);
                        assert(old(self).cleanup_boxes().contains(x));
                    } else {
                        assert(old(self).held_boxes().contains(x));
                    }
                }
                assert forall|x: u16| #[trigger] self.ready@.contains(x) implies !self.cleanup@.contains(x) by {
                    if self.cleanup@.contains(x) {
                        let k = choose|k: int| 0 <= k < self.cleanup@.len() && self.cleanup@[k] == x;
                        if k < old(self).cleanup@.len() {
                            assert(old(self).cleanup@[k] == x);
                        }
                    }
                }
            }
        }
    }

    /// Takes the box released first for cleaning, if any.
    pub fn begin_recycle(&mut self) -> (r: Option<u16>)
        ensures
            final(self).box_count() == old(self).box_count(),
            old(self).cleanup_boxes().len() == 0 ==> r is None && *final(self) == *old(self),
            old(self).cleanup_boxes().len() > 0 ==> r == Some(old(self).cleanup_boxes()[0])
                && final(self).cleanup_boxes() == old(self).cleanup_boxes().drop_first()
                && final(self).recycling_boxes() == old(self).recycling_boxes().insert(
                old(self).cleanup_boxes()[0],
            ) && final(self).ready_boxes() == old(self).ready_boxes()
                && final(self).held_boxes() == old(self).held_boxes(),
            old(self).wf() ==> final(self).wf(),
    {
        if self.cleanup.len() == 0 {
            return None;
        }
        let ghost before = self.cleanup@;
        let b = self.cleanup.remove(0);
        assert(self.cleanup@ =~= before.drop_first());
        self.recycling = Ghost(self.recycling@.insert(b));
        proof {
            if old(self).wf() {
                assert(before.contains(b));
                assert forall|x: u16| self.cleanup@.contains(x) implies x != b && x < self.capacity@ by {
                    let k = choose|k: int| 0 <= k < self.cleanup@.len() && self.cleanup@[k] == x;
                    assert(before[k + 1] == x);
                    assert(old(self).cleanup_boxes().contains(x));
                }
                assert(old(self).cleanup_boxes().contains(b));
                assert forall|x: u16| #[trigger] self.recycling@.contains(x) implies x < self.capacity@ by {
                    if x != b {
                        assert(old(self).recycling_boxes().contains(x));
                    }
                }
            }
        }
        Some(b)
    }

    /// Ends the recycling of a box: it is ready again when it was
    /// re-initialised, and leaves the pool otherwise.
    pub fn finish_recycle(&mut self, box_id: u16, reinitialised: bool)
        ensures
            final(self).box_count() == old(self).box_count(),
            final(self).recycling_boxes() == old(self).recycling_boxes().remove(box_id),
            final(self).ready_boxes() == (if reinitialised {
                old(self).ready_boxes().push(box_id)
            } else {
                old(self).ready_boxes()
            }),
            final(self).cleanup_boxes() == old(self).cleanup_boxes(),
            final(self).held_boxes() == old(self).held_boxes(),
            old(self).wf() && old(self).recycling_boxes().contains(box_id) ==> final(self).wf(),
    {
        if reinitialised {
            self.ready.push(box_id);
        }
        self.recycling = Ghost(self.recycling@.remove(box_id));
        proof {
            if old(self).wf() && old(self).recycling_boxes().contains(box_id) {
                assert forall|x: u16| #[trigger] self.ready@.contains(x) implies x < self.capacity@ by {
                    if x != box_id {
                        let k = choose|k: int| 0 <= k < self.ready@.len() && self.ready@[k] == x;
                        assert(old(self).ready@[k] == x);
                        assert(old(self).ready_boxes().contains(x));
                    } else {
                        assert(old(self).recycling_boxes().contains(x));
                    }
                }
            }
            if old(self).wf() && old(self).recycling_boxes().contains(box_id) && reinitialised {
                assert forall|i: int, j: int| 0 <= i < j < self.ready@.len() implies self.ready@[i]
                    != self.ready@[j] by {
                    if j == self.ready@.len() - 1 {
                        assert(old(self).ready@.contains(self.ready@[i]));
                    }
                }
                assert forall|b: u16| self.ready@.contains(b) implies !self.cleanup@.contains(b)
                    && !self.held@.contains(b) && !self.recycling@.contains(b) by {
                    if b != box_id {
                        let k = choose|k: int| 0 <= k < self.ready@.len() && self.ready@[k] == b;
                        assert(old(self).ready@[k] == b);
                    }
                }
            }
        }
    }

    /// How many boxes are ready.
    pub fn ready_count(&self) -> (r: usize)
        ensures
            r == self.ready_boxes().len(),
    {
        self.ready.len()
    }
}

} // verus!
