//! The collision world: a registry of objects under stable handles, and the
//! per-tick pass that tests and corrects every pair.
use vstd::prelude::*;

pub mod collision;
pub mod physics_object;
pub mod shapes;
pub mod solutions;

use crate::physics::collision::{collides, test_collision};
use crate::physics::physics_object::PhysicsObject;
use crate::physics::solutions::{mtv, resolved, solve_collision};

verus! {

/// The abstract state of a `World`: the live handles in registration order,
/// the object under each, and the next handle to hand out.
pub ghost struct WorldModel {
    pub handles: Seq<u32>,
    pub objects: Seq<PhysicsObject>,
    pub next_id: nat,
}

/// The pairs `(i, j)` for `j` from `j0` up to `n - 1`.
pub open spec fn row(i: int, j0: int, n: int) -> Seq<(int, int)>
    decreases n - j0,
{
    if j0 >= n {
        Seq::empty()
    } else {
        seq![(i, j0)] + row(i, j0 + 1, n)
    }
}

/// The unordered index pairs `(i, j)`, `i0 <= i < j < n`, in the order the
/// world visits them: by `i`, then by `j`.
pub open spec fn pairs_from(i0: int, n: int) -> Seq<(int, int)>
    decreases n - i0,
{
    if i0 >= n {
        Seq::empty()
    } else {
        row(i0, i0 + 1, n) + pairs_from(i0 + 1, n)
    }
}

/// Every unordered pair of `n` objects, in visiting order.
pub open spec fn all_pairs(n: int) -> Seq<(int, int)> {
    pairs_from(0, n)
}

/// One pair's evaluation: test the two objects as they are now and, if they
/// collide, correct both.
pub open spec fn step(objs: Seq<PhysicsObject>, p: (int, int)) -> Seq<PhysicsObject> {
    let a = objs[p.0];
    let b = objs[p.1];
    if collides(a.shape, b.shape) {
        let r = resolved(a, b, mtv(a.shape, b.shape));
        objs.update(p.0, r.0).update(p.1, r.1)
    } else {
        objs
    }
}

/// The pairs evaluated one after another, each seeing the corrections made
/// by those before it.
pub open spec fn run_pairs(objs: Seq<PhysicsObject>, ps: Seq<(int, int)>) -> Seq<PhysicsObject>
    decreases ps.len(),
{
    if ps.len() == 0 {
        objs
    } else {
        run_pairs(step(objs, ps[0]), ps.drop_first())
    }
}

impl WorldModel {
    pub open spec fn wf(self) -> bool {
        &&& self.handles.len() == self.objects.len()
        &&& forall|a: int, b: int|
            0 <= a < b < self.handles.len() ==> self.handles[a] < self.handles[b]
        &&& forall|k: int| 0 <= k < self.handles.len() ==> self.handles[k] < self.next_id
        &&& forall|k: int| 0 <= k < self.objects.len() ==> (#[trigger] self.objects[k]).wf()
        &&& self.next_id <= u32::MAX
    }

    pub open spec fn contains(self, h: u32) -> bool {
        exists|k: int| 0 <= k < self.handles.len() && self.handles[k] == h
    }

    /// The position of handle `h`, when it is registered.
    pub open spec fn index_of(self, h: u32) -> int {
        choose|k: int| 0 <= k < self.handles.len() && self.handles[k] == h
    }

    /// The object registered under `h`.
    pub open spec fn lookup(self, h: u32) -> Option<PhysicsObject> {
        if self.contains(h) {
            Some(self.objects[self.index_of(h)])
        } else {
            None
        }
    }

    /// The world with `o` registered under handle `next_id`.
    pub open spec fn added(self, o: PhysicsObject) -> WorldModel {
        WorldModel {
            handles: self.handles.push(self.next_id as u32),
            objects: self.objects.push(o),
            next_id: self.next_id + 1,
        }
    }

    /// The world without handle `h`; unchanged when `h` is not registered.
    pub open spec fn removed(self, h: u32) -> WorldModel {
        if self.contains(h) {
            let k = self.index_of(h);
            WorldModel {
                handles: self.handles.remove(k),
                objects: self.objects.remove(k),
                next_id: self.next_id,
            }
        } else {
            self
        }
    }

    /// The world after one pass over all pairs.
    pub open spec fn updated(self) -> WorldModel {
        WorldModel {
            handles: self.handles,
            objects: run_pairs(self.objects, all_pairs(self.objects.len() as int)),
            next_id: self.next_id,
        }
    }
}

/// Handles are unique, so a registered handle has exactly one position.
pub proof fn lemma_index_of(m: WorldModel, h: u32, k: int)
    requires
        m.wf(),
        0 <= k < m.handles.len(),
        m.handles[k] == h,
    ensures
        m.contains(h),
        m.index_of(h) == k,
{
    let j = m.index_of(h);
    assert(m.handles[j] == h);
    if j < k {
        assert(m.handles[j] < m.handles[k]);
    } else if k < j {
        assert(m.handles[k] < m.handles[j]);
    }
}

/// A set of objects that collide and correct each other pairwise.
///
/// The world stores its objects by value in registration order; the
/// application reads them back with `get_object` and moves one with
/// `replace_object`, always through the handle `add_object` returned.
pub struct World {
    handles: Vec<u32>,
    objects: Vec<PhysicsObject>,
    next_id: u32,
}

impl View for World {
    type V = WorldModel;

    closed spec fn view(&self) -> WorldModel {
        WorldModel { handles: self.handles@, objects: self.objects@, next_id: self.next_id as nat }
    }
}

impl World {
    pub open spec fn wf(&self) -> bool {
        self@.wf()
    }

    pub fn new() -> (r: World)
        ensures
            r.wf(),
            r@.handles.len() == 0,
            r@.objects.len() == 0,
            r@.next_id == 0,
    {
        World { handles: Vec::new(), objects: Vec::new(), next_id: 0 }
    }

    /// Number of registered objects.
    pub fn len(&self) -> (r: usize)
        requires
            self.wf(),
        ensures
            r == self@.objects.len(),
    {
        self.objects.len()
    }

    /// Registers `object` and returns its handle; handles are never reused.
    pub fn add_object(&mut self, object: PhysicsObject) -> (r: u32)
        requires
            old(self).wf(),
            object.wf(),
            old(self)@.next_id < u32::MAX,
        ensures
            r == old(self)@.next_id,
            final(self)@ == old(self)@.added(object),
            final(self).wf(),
    {
        let id = self.next_id;
        self.handles.push(id);
        self.objects.push(object);
        self.next_id = id + 1;
        proof {
            let m = self@;
            assert forall|k: int| 0 <= k < m.objects.len() implies (#[trigger] m.objects[k]).wf() by {
                if k < m.objects.len() - 1 {
                    assert(m.objects[k] == old(self)@.objects[k]);
                }
            }
        }
        id
    }

    /// Deregisters `id`; a handle that is not registered is ignored.
    pub fn remove_object(&mut self, id: u32)
        requires
            old(self).wf(),
        ensures
            final(self)@ == old(self)@.removed(id),
            final(self).wf(),
    {
        let mut k: usize = 0;
        while k < self.handles.len()
            invariant
                self.wf(),
                self@ == old(self)@,
                forall|m: int| 0 <= m < k ==> self@.handles[m] != id,
            decreases self.handles.len() - k,
        {
            if self.handles[k] == id {
                proof {
                    lemma_index_of(self@, id, k as int);
                }
                let ghost before = self@;
                self.handles.remove(k);
                self.objects.remove(k);
                proof {
                    let m = self@;
                    assert(m.handles =~= before.handles.remove(k as int));
                    assert(m.objects =~= before.objects.remove(k as int));
                    assert forall|a: int, b: int| 0 <= a < b < m.handles.len() implies m.handles[a]
                        < m.handles[b] by {
                        let a2 = if a < k { a } else { a + 1 };
                        let b2 = if b < k { b } else { b + 1 };
                        assert(m.handles[a] == before.handles[a2]);
                        assert(m.handles[b] == before.handles[b2]);
                    }
                    assert forall|j: int| 0 <= j < m.handles.len() implies m.handles[j]
                        < m.next_id by {
                        let j2 = if j < k { j } else { j + 1 };
                        assert(m.handles[j] == before.handles[j2]);
                    }
                    assert forall|j: int| 0 <= j < m.objects.len() implies (
                    #[trigger] m.objects[j]).wf() by {
                        let j2 = if j < k { j } else { j + 1 };
                        assert(m.objects[j] == before.objects[j2]);
                    }
                }
                return;
            }
            k += 1;
        }
    }

    /// The object registered under `id`, if any.
    pub fn get_object(&self, id: u32) -> (r: Option<PhysicsObject>)
        requires
            self.wf(),
        ensures
            r == self@.lookup(id),
    {
        let mut k: usize = 0;
        while k < self.handles.len()
            invariant
                self.wf(),
                forall|m: int| 0 <= m < k ==> self@.handles[m] != id,
            decreases self.handles.len() - k,
        {
            if self.handles[k] == id {
                proof {
                    lemma_index_of(self@, id, k as int);
                }
                return Some(self.objects[k]);
            }
            k += 1;
        }
        None
    }

    /// Puts `object` in place of the one registered under `id` and returns
    /// true; returns false and changes nothing when `id` is not registered.
    pub fn replace_object(&mut self, id: u32, object: PhysicsObject) -> (r: bool)
        requires
            old(self).wf(),
            object.wf(),
        ensures
            r == old(self)@.contains(id),
            r ==> final(self)@ == (WorldModel {
                objects: old(self)@.objects.update(old(self)@.index_of(id), object),
                ..old(self)@
            }),
            !r ==> final(self)@ == old(self)@,
            final(self).wf(),
    {
        let mut k: usize = 0;
        while k < self.handles.len()
            invariant
                self.wf(),
                object.wf(),
                self@ == old(self)@,
                forall|m: int| 0 <= m < k ==> self@.handles[m] != id,
            decreases self.handles.len() - k,
        {
            if self.handles[k] == id {
                proof {
                    lemma_index_of(self@, id, k as int);
                }
                self.objects.set(k, object);
                proof {
                    let m = self@;
                    assert forall|j: int| 0 <= j < m.objects.len() implies (
                    #[trigger] m.objects[j]).wf() by {
                        if j != k {
                            assert(m.objects[j] == old(self)@.objects[j]);
                        } else {
                            assert(m.objects[j] == object);
                        }
                    }
                    assert(m.objects =~= old(self)@.objects.update(k as int, object));
                }
                return true;
            }
            k += 1;
        }
        false
    }

    /// Tests every unordered pair of registered objects once, in registration
    /// order, and corrects each colliding pair from its current positions.
    pub fn update(&mut self)
        requires
            old(self).wf(),
        ensures
            final(self)@ == old(self)@.updated(),
            final(self).wf(),
    {
        let n = self.objects.len();
        let ghost goal = run_pairs(self@.objects, all_pairs(n as int));
        let mut i: usize = 0;
        while i < n
            invariant
                self.wf(),
                self@.objects.len() == n,
                self@.handles == old(self)@.handles,
                self@.next_id == old(self)@.next_id,
                i <= n,
                run_pairs(self@.objects, pairs_from(i as int, n as int)) == goal,
            decreases n - i,
        {
            let mut j: usize = i + 1;
            while j < n
                invariant
                    self.wf(),
                    self@.objects.len() == n,
                    self@.handles == old(self)@.handles,
                    self@.next_id == old(self)@.next_id,
                    i < j <= n,
                    run_pairs(self@.objects, row(i as int, j as int, n as int) + pairs_from(
                        i as int + 1,
                        n as int,
                    )) == goal,
                decreases n - j,
            {
                let ghost objs = self@.objects;
                let ghost rest = row(i as int, j as int + 1, n as int) + pairs_from(
                    i as int + 1,
                    n as int,
                );
                let ghost ps = row(i as int, j as int, n as int) + pairs_from(i as int + 1, n as int);
                assert(ps[0] == (i as int, j as int));
                assert(ps.drop_first() =~= rest);
                let mut a = self.objects[i];
                let mut b = self.objects[j];
                if test_collision(&a.shape, &b.shape) {
                    solve_collision(&mut a, &mut b);
                    self.objects.set(i, a);
                    self.objects.set(j, b);
                }
                proof {
                    assert(self@.objects =~= step(objs, (i as int, j as int)));
                    assert forall|k: int| 0 <= k < self@.objects.len() implies (
                    #[trigger] self@.objects[k]).wf() by {
                        if k != i && k != j {
                            assert(self@.objects[k] == objs[k]);
                        }
                    }
                }
                j += 1;
            }
            assert(row(i as int, n as int, n as int) + pairs_from(i as int + 1, n as int)
                =~= pairs_from(i as int + 1, n as int));
            i += 1;
        }
    }
}

proof fn lemma_row_len(i: int, j0: int, n: int)
    requires
        j0 <= n,
    ensures
        row(i, j0, n).len() == n - j0,
    decreases n - j0,
{
    if j0 < n {
        lemma_row_len(i, j0 + 1, n);
    }
}

proof fn lemma_pairs_from_len(i0: int, n: int)
    requires
        0 <= i0 <= n,
    ensures
        2 * pairs_from(i0, n).len() == (n - i0) * (n - i0 - 1),
    decreases n - i0,
{
    if i0 < n {
        lemma_row_len(i0, i0 + 1, n);
        lemma_pairs_from_len(i0 + 1, n);
        let k = n - i0;
        assert(pairs_from(i0, n).len() == row(i0, i0 + 1, n).len() + pairs_from(i0 + 1, n).len());
        assert((n - (i0 + 1)) * (n - (i0 + 1) - 1) == (k - 1) * (k - 2));
        assert(2 * (k - 1) + (k - 1) * (k - 2) == k * (k - 1)) by (nonlinear_arith);
        assert(2 * pairs_from(i0, n).len() == 2 * (k - 1) + 2 * pairs_from(i0 + 1, n).len());
    } else {
        assert(pairs_from(i0, n).len() == 0);
        assert((n - i0) * (n - i0 - 1) == 0) by (nonlinear_arith)
            requires
                i0 == n,
        ;
    }
}

/// A pass over `n` objects evaluates `n * (n - 1) / 2` pairs.
pub proof fn lemma_pair_count(n: nat)
    ensures
        all_pairs(n as int).len() == n * (n - 1) / 2,
{
    lemma_pairs_from_len(0, n as int);
    let c = all_pairs(n as int).len() as int;
    assert(2 * c == n * (n - 1));
    assert((2 * c) / 2 == c);
}

proof fn lemma_row_index(i: int, j0: int, n: int, k: int)
    requires
        j0 <= n,
        0 <= k < n - j0,
    ensures
        row(i, j0, n)[k] == (i, j0 + k),
    decreases n - j0,
{
    lemma_row_len(i, j0 + 1, n);
    if k > 0 {
        lemma_row_index(i, j0 + 1, n, k - 1);
    }
}

proof fn lemma_pairs_from_members(i0: int, n: int)
    requires
        0 <= i0 <= n,
    ensures
        forall|k: int|
            0 <= k < pairs_from(i0, n).len() ==> i0 <= (#[trigger] pairs_from(i0, n)[k]).0
                < pairs_from(i0, n)[k].1 < n,
        forall|i: int, j: int|
            i0 <= i < j < n ==> #[trigger] pairs_from(i0, n).contains((i, j)),
        pairs_from(i0, n).no_duplicates(),
    decreases n - i0,
{
    if i0 < n {
        lemma_pairs_from_members(i0 + 1, n);
        lemma_row_len(i0, i0 + 1, n);
        let r = row(i0, i0 + 1, n);
        let t = pairs_from(i0 + 1, n);
        let p = pairs_from(i0, n);
        assert(p == r + t);
        assert forall|k: int| 0 <= k < r.len() implies #[trigger] r[k] == (i0, i0 + 1 + k) by {
            lemma_row_index(i0, i0 + 1, n, k);
        }
        assert forall|k: int| 0 <= k < p.len() implies i0 <= (#[trigger] p[k]).0 < p[k].1 < n by {
            if k < r.len() {
                assert(p[k] == r[k]);
            } else {
                assert(p[k] == t[k - r.len()]);
            }
        }
        assert forall|i: int, j: int| i0 <= i < j < n implies #[trigger] p.contains((i, j)) by {
            if i == i0 {
                assert(p[j - i0 - 1] == r[j - i0 - 1]);
            } else {
                assert(t.contains((i, j)));
                let k = choose|k: int| 0 <= k < t.len() && t[k] == (i, j);
                assert(p[r.len() + k] == t[k]);
            }
        }
        assert forall|a: int, b: int| 0 <= a < b < p.len() implies p[a] != p[b] by {
            if b < r.len() {
                assert(p[a] == r[a] && p[b] == r[b]);
            } else if a < r.len() {
                assert(p[a] == r[a]);
                assert(p[b] == t[b - r.len()]);
            } else {
                assert(p[a] == t[a - r.len()]);
                assert(p[b] == t[b - r.len()]);
            }
        }
    }
}

/// A pass over `n` objects visits exactly the unordered pairs `(i, j)`,
/// `0 <= i < j < n`, each once, and there are `n * (n - 1) / 2` of them.
pub proof fn lemma_update_covers_pairs(n: nat)
    ensures
        forall|i: int, j: int|
            #![trigger all_pairs(n as int).contains((i, j))]
            all_pairs(n as int).contains((i, j)) <==> 0 <= i < j < n,
        all_pairs(n as int).no_duplicates(),
        all_pairs(n as int).len() == n * (n - 1) / 2,
{
    lemma_pairs_from_members(0, n as int);
    lemma_pair_count(n);
    let p = all_pairs(n as int);
    assert forall|i: int, j: int| #[trigger] p.contains((i, j)) implies 0 <= i < j < n by {
        let k = choose|k: int| 0 <= k < p.len() && p[k] == (i, j);
        assert(0 <= p[k].0 < p[k].1 < n);
    }
}

/// Removing a registered object before a pass leaves `(n - 1) * (n - 2) / 2`
/// pairs to evaluate.
pub proof fn lemma_remove_then_pair_count(m: WorldModel, h: u32)
    requires
        m.wf(),
        m.contains(h),
    ensures
        m.removed(h).objects.len() == m.objects.len() - 1,
        all_pairs(m.removed(h).objects.len() as int).len() == (m.objects.len() - 1) * (
        m.objects.len() - 2) / 2,
{
    let n = m.objects.len();
    let k = m.index_of(h);
    assert(0 <= k < n);
    lemma_pair_count((n - 1) as nat);
}

/// A newly issued handle differs from every handle issued before it,
/// including handles that have since been removed: it is `next_id`, which
/// only grows.
pub proof fn lemma_new_handle_is_fresh(m: WorldModel, o: PhysicsObject)
    requires
        m.wf(),
        o.wf(),
        m.next_id < u32::MAX,
    ensures
        !m.contains(m.next_id as u32),
        m.added(o).wf(),
        m.added(o).next_id > m.next_id,
        forall|h: u32| m.contains(h) ==> h < m.next_id,
        forall|h: u32| m.removed(h).next_id == m.next_id,
{
    let a = m.added(o);
    assert forall|k: int| 0 <= k < a.objects.len() implies (#[trigger] a.objects[k]).wf() by {
        if k < m.objects.len() {
            assert(a.objects[k] == m.objects[k]);
        }
    }
    assert forall|x: int, y: int| 0 <= x < y < a.handles.len() implies a.handles[x]
        < a.handles[y] by {
        if y < m.handles.len() {
            assert(a.handles[y] == m.handles[y]);
        }
        assert(a.handles[x] == m.handles[x]);
    }
}

/// Register three objects, remove the second: the first and third handles
/// are distinct and still look up their objects, the second no longer
/// does, and a fourth registration gets a handle equal to none of the three.
pub proof fn lemma_handles_never_reused(
    m: WorldModel,
    a: PhysicsObject,
    b: PhysicsObject,
    c: PhysicsObject,
    d: PhysicsObject,
)
    requires
        m.wf(),
        a.wf(),
        b.wf(),
        c.wf(),
        d.wf(),
        m.next_id + 4 <= u32::MAX,
    ensures
        ({
            let (h1, m1) = (m.next_id as u32, m.added(a));
            let (h2, m2) = (m1.next_id as u32, m1.added(b));
            let (h3, m3) = (m2.next_id as u32, m2.added(c));
            let m4 = m3.removed(h2);
            let h4 = m4.next_id as u32;
            &&& m4.lookup(h1) == Some(a)
            &&& m4.lookup(h3) == Some(c)
            &&& m4.lookup(h2) is None
            &&& h1 != h3
            &&& h4 != h1 && h4 != h2 && h4 != h3
            &&& !m4.contains(h4)
        }),
{
    lemma_new_handle_is_fresh(m, a);
    let m1 = m.added(a);
    lemma_new_handle_is_fresh(m1, b);
    let m2 = m1.added(b);
    lemma_new_handle_is_fresh(m2, c);
    let m3 = m2.added(c);
    let n = m.handles.len() as int;
    let (h1, h2, h3) = (m.next_id as u32, m1.next_id as u32, m2.next_id as u32);
    assert(m3.handles[n] == h1);
    assert(m3.handles[n + 1] == h2);
    assert(m3.handles[n + 2] == h3);
    assert(m3.objects[n] == a);
    assert(m3.objects[n + 2] == c);
    lemma_index_of(m3, h2, n + 1);
    let m4 = m3.removed(h2);
    assert(m4.handles == m3.handles.remove(n + 1));
    assert(m4.handles[n] == h1);
    assert(m4.handles[n + 1] == h3);
    assert(m4.objects[n] == a);
    assert(m4.objects[n + 1] == c);
    assert(m4.wf()) by {
        assert forall|x: int, y: int| 0 <= x < y < m4.handles.len() implies m4.handles[x]
            < m4.handles[y] by {
            let x2 = if x < n + 1 { x } else { x + 1 };
            let y2 = if y < n + 1 { y } else { y + 1 };
            assert(m4.handles[x] == m3.handles[x2]);
            assert(m4.handles[y] == m3.handles[y2]);
        }
        assert forall|j: int| 0 <= j < m4.handles.len() implies m4.handles[j] < m4.next_id by {
            let j2 = if j < n + 1 { j } else { j + 1 };
            assert(m4.handles[j] == m3.handles[j2]);
        }
        assert forall|j: int| 0 <= j < m4.objects.len() implies (#[trigger] m4.objects[j]).wf() by {
            let j2 = if j < n + 1 { j } else { j + 1 };
            assert(m4.objects[j] == m3.objects[j2]);
        }
    }
    lemma_index_of(m4, h1, n);
    lemma_index_of(m4, h3, n + 1);
    if m4.contains(h2) {
        let k = m4.index_of(h2);
        let k2 = if k < n + 1 { k } else { k + 1 };
        assert(m4.handles[k] == m3.handles[k2]);
        lemma_index_of(m3, h2, k2);
    }
    lemma_new_handle_is_fresh(m4, d);
}

} // verus!
