//! Stable row identifiers: the editor addresses keybinds and rules by an id
//! that survives insertions and deletions, never by their position.

use vstd::prelude::*;
use crate::types::{Keybind, LayerRule, SettingsConfig, WindowRule};

verus! {

/// Source of fresh row ids: it hands out 1, 2, 3, … in turn.
pub struct RowIds {
    next: u64,
}

impl RowIds {
    #[verifier::type_invariant]
    spec fn inv(self) -> bool {
        self.next >= 1
    }

    /// The id that the next call of [`RowIds::fresh`] hands out.
    pub closed spec fn peek(self) -> u64 {
        self.next
    }

    /// The id that the next call of [`RowIds::fresh`] hands out.
    pub fn upcoming(&self) -> (r: u64)
        ensures
            r == self.peek(),
    {
        self.next
    }

    /// A source whose first id is 1.
    pub fn new() -> (r: Self)
        ensures
            r.peek() == 1,
    {
        RowIds { next: 1 }
    }

    /// Allocates a fresh id: the one after every id handed out before.
    pub fn fresh(&mut self) -> (r: u64)
        requires
            old(self).peek() < u64::MAX,
        ensures
            r == old(self).peek(),
            r >= 1,
            final(self).peek() == r + 1,
    {
        proof {
            use_type_invariant(&*self);
        }
        let r = self.next;
        self.next = self.next + 1;
        r
    }
}

/// Allocates a fresh, process-unique row id from `ids`.
pub fn next_row_id(ids: &mut RowIds) -> (r: u64)
    requires
        old(ids).peek() < u64::MAX,
    ensures
        r == old(ids).peek(),
        r >= 1,
        final(ids).peek() == r + 1,
{
    ids.fresh()
}

/// A row that carries a runtime id.
pub trait RowEntry: Sized {
    spec fn row_id(&self) -> u64;

    /// The same row with its id replaced.
    spec fn with_row_id(self, id: u64) -> Self;

    proof fn lemma_with_row_id(self, id: u64)
        ensures
            self.with_row_id(id).row_id() == id,
            self.with_row_id(id).with_row_id(id) == self.with_row_id(id),
            self.with_row_id(self.row_id()) == self,
    ;

    fn id(&self) -> (r: u64)
        ensures
            r == self.row_id(),
    ;

    fn set_id(&mut self, id: u64)
        ensures
            *final(self) == old(self).with_row_id(id),
    ;
}

impl RowEntry for Keybind {
    open spec fn row_id(&self) -> u64 {
        self.id
    }

    open spec fn with_row_id(self, id: u64) -> Self {
        Keybind { id: id, ..self }
    }

    proof fn lemma_with_row_id(self, id: u64) {
    }

    fn id(&self) -> (r: u64) {
        self.id
    }

    fn set_id(&mut self, id: u64) {
        self.id = id;
    }
}

impl RowEntry for WindowRule {
    open spec fn row_id(&self) -> u64 {
        self.id
    }

    open spec fn with_row_id(self, id: u64) -> Self {
        WindowRule { id: id, ..self }
    }

    proof fn lemma_with_row_id(self, id: u64) {
    }

    fn id(&self) -> (r: u64) {
        self.id
    }

    fn set_id(&mut self, id: u64) {
        self.id = id;
    }
}

impl RowEntry for LayerRule {
    open spec fn row_id(&self) -> u64 {
        self.id
    }

    open spec fn with_row_id(self, id: u64) -> Self {
        LayerRule { id: id, ..self }
    }

    proof fn lemma_with_row_id(self, id: u64) {
    }

    fn id(&self) -> (r: u64) {
        self.id
    }

    fn set_id(&mut self, id: u64) {
        self.id = id;
    }
}

// ── Specifications over row sequences ─────────────────────────────────────────

/// How many rows of `s` have no id yet (id 0).
pub open spec fn unassigned<T: RowEntry>(s: Seq<T>) -> nat
    decreases s.len(),
{
    if s.len() == 0 {
        0
    } else {
        unassigned(s.drop_last()) + if s.last().row_id() == 0 {
            1nat
        } else {
            0nat
        }
    }
}

/// `new` is `old` with every row of id 0 given the ids `start`, `start + 1`, …
/// in row order, and every other row unchanged.
pub open spec fn ids_filled<T: RowEntry>(old: Seq<T>, new: Seq<T>, start: u64) -> bool {
    &&& new.len() == old.len()
    &&& forall|i: int|
        0 <= i < old.len() ==> #[trigger] new[i] == if old[i].row_id() != 0 {
            old[i]
        } else {
            old[i].with_row_id((start + unassigned(old.subrange(0, i))) as u64)
        }
}

/// The rows of `s` whose id is not `id`, in order.
pub open spec fn without_id<T: RowEntry>(s: Seq<T>, id: u64) -> Seq<T>
    decreases s.len(),
{
    if s.len() == 0 {
        Seq::empty()
    } else if s.last().row_id() == id {
        without_id(s.drop_last(), id)
    } else {
        without_id(s.drop_last(), id).push(s.last())
    }
}

/// The position of the first row of `s` with id `id`, if any.
pub open spec fn first_with_id<T: RowEntry>(s: Seq<T>, id: u64) -> Option<int>
    decreases s.len(),
{
    if s.len() == 0 {
        None
    } else if first_with_id(s.drop_last(), id) is Some {
        first_with_id(s.drop_last(), id)
    } else if s.last().row_id() == id {
        Some(s.len() - 1)
    } else {
        None
    }
}

/// The first row with a given id is found where it is, and no row before it
/// carries that id.
pub proof fn lemma_first_with_id_props<T: RowEntry>(s: Seq<T>, id: u64)
    ensures
        first_with_id(s, id) matches Some(k) ==> 0 <= k < s.len() && s[k].row_id() == id
            && forall|j: int| 0 <= j < k ==> #[trigger] s[j].row_id() != id,
        first_with_id(s, id) is None ==> forall|j: int|
            0 <= j < s.len() ==> #[trigger] s[j].row_id() != id,
    decreases s.len(),
{
    if s.len() > 0 {
        let p = s.drop_last();
        lemma_first_with_id_props(p, id);
        assert forall|j: int| 0 <= j < p.len() implies #[trigger] s[j] == p[j] by {}
    }
}

pub proof fn lemma_unassigned_bound<T: RowEntry>(s: Seq<T>)
    ensures
        unassigned(s) <= s.len(),
    decreases s.len(),
{
    if s.len() > 0 {
        lemma_unassigned_bound(s.drop_last());
    }
}

proof fn lemma_unassigned_prefix_step<T: RowEntry>(s: Seq<T>, i: int)
    requires
        0 <= i < s.len(),
    ensures
        unassigned(s.subrange(0, i + 1)) == unassigned(s.subrange(0, i)) + if s[i].row_id()
            == 0 {
            1nat
        } else {
            0nat
        },
{
    assert(s.subrange(0, i + 1).drop_last() =~= s.subrange(0, i));
}

/// Ids given to earlier rows are smaller than ids given to later ones.
proof fn lemma_unassigned_mono<T: RowEntry>(s: Seq<T>, i: int, j: int)
    requires
        0 <= i < j <= s.len(),
        s[i].row_id() == 0,
    ensures
        unassigned(s.subrange(0, i)) < unassigned(s.subrange(0, j)),
    decreases j - i,
{
    lemma_unassigned_prefix_step(s, j - 1);
    if j - 1 > i {
        lemma_unassigned_mono(s, i, j - 1);
    }
}

proof fn lemma_first_with_id<T: RowEntry>(s: Seq<T>, id: u64, k: int)
    requires
        0 <= k < s.len(),
        s[k].row_id() == id,
        forall|j: int| 0 <= j < k ==> #[trigger] s[j].row_id() != id,
    ensures
        first_with_id(s, id) == Some(k),
    decreases s.len(),
{
    lemma_first_with_id_props(s, id);
    let p = s.drop_last();
    if k < s.len() - 1 {
        assert(p[k] == s[k]);
        assert forall|j: int| 0 <= j < k implies #[trigger] p[j].row_id() != id by {
            assert(p[j] == s[j]);
        }
        lemma_first_with_id(p, id, k);
    } else {
        lemma_first_with_id_props(p, id);
        if first_with_id(p, id) is Some {
            let q = first_with_id(p, id)->0;
            assert(p[q] == s[q]);
        }
    }
}

// ── Laws of row ids ───────────────────────────────────────────────────────────

/// After the ids are filled from a source whose next id is at least 1, no
/// row is left without an id.
pub proof fn law_filled_ids_nonzero<T: RowEntry>(old: Seq<T>, new: Seq<T>, start: u64)
    requires
        start >= 1,
        start + old.len() < u64::MAX,
        ids_filled(old, new, start),
    ensures
        forall|i: int| 0 <= i < new.len() ==> #[trigger] new[i].row_id() != 0,
        unassigned(new) == 0,
{
    assert forall|i: int| 0 <= i < new.len() implies #[trigger] new[i].row_id() != 0 by {
        lemma_unassigned_bound(old.subrange(0, i));
        if old[i].row_id() == 0 {
            old[i].lemma_with_row_id((start + unassigned(old.subrange(0, i))) as u64);
        }
    }
    lemma_no_unassigned(new);
}

proof fn lemma_no_unassigned<T: RowEntry>(s: Seq<T>)
    requires
        forall|i: int| 0 <= i < s.len() ==> #[trigger] s[i].row_id() != 0,
    ensures
        unassigned(s) == 0,
    decreases s.len(),
{
    if s.len() > 0 {
        assert(s.last().row_id() != 0);
        lemma_no_unassigned(s.drop_last());
    }
}

/// Filling ids again changes nothing: rows that have ids keep them.
pub proof fn law_fill_ids_idempotent<T: RowEntry>(a: Seq<T>, b: Seq<T>, c: Seq<T>, s: u64, t: u64)
    requires
        s >= 1,
        s + a.len() < u64::MAX,
        ids_filled(a, b, s),
        ids_filled(b, c, t),
    ensures
        c == b,
        unassigned(b) == 0,
{
    law_filled_ids_nonzero(a, b, s);
    assert(c =~= b);
}

/// The ids given in one fill are pairwise distinct, and all lie in
/// `start .. start + unassigned(old)`.
pub proof fn law_fresh_ids_distinct<T: RowEntry>(old: Seq<T>, new: Seq<T>, start: u64, i: int, j: int)
    requires
        start + old.len() < u64::MAX,
        ids_filled(old, new, start),
        0 <= i < old.len(),
        0 <= j < old.len(),
        i != j,
        old[i].row_id() == 0,
        old[j].row_id() == 0,
    ensures
        new[i].row_id() != new[j].row_id(),
        start <= new[i].row_id() < start + unassigned(old),
{
    lemma_unassigned_bound(old.subrange(0, i));
    lemma_unassigned_bound(old.subrange(0, j));
    old[i].lemma_with_row_id((start + unassigned(old.subrange(0, i))) as u64);
    old[j].lemma_with_row_id((start + unassigned(old.subrange(0, j))) as u64);
    if i < j {
        lemma_unassigned_mono(old, i, j);
    } else {
        lemma_unassigned_mono(old, j, i);
    }
    lemma_unassigned_mono(old, i, old.len() as int);
    assert(old.subrange(0, old.len() as int) =~= old);
}

/// Where a filled id lies: a row that had an id keeps it; a row that had
/// none gets one in `start .. start + unassigned(old)`.
proof fn lemma_filled_range<T: RowEntry>(old: Seq<T>, new: Seq<T>, start: u64)
    requires
        start + old.len() < u64::MAX,
        ids_filled(old, new, start),
    ensures
        forall|k: int|
            0 <= k < old.len() ==> (old[k].row_id() != 0 ==> #[trigger] new[k].row_id()
                == old[k].row_id()) && (old[k].row_id() == 0 ==> start <= new[k].row_id() < start
                + unassigned(old)),
{
    assert forall|k: int| 0 <= k < old.len() implies (old[k].row_id() != 0 ==> #[trigger] new[k].row_id()
        == old[k].row_id()) && (old[k].row_id() == 0 ==> start <= new[k].row_id() < start
        + unassigned(old)) by {
        lemma_unassigned_bound(old.subrange(0, k));
        if old[k].row_id() == 0 {
            old[k].lemma_with_row_id((start + unassigned(old.subrange(0, k))) as u64);
            lemma_unassigned_mono(old, k, old.len() as int);
            assert(old.subrange(0, old.len() as int) =~= old);
        }
    }
}

/// The row ids of a configuration: its bindings', then its window rules',
/// then its layer rules'.
pub open spec fn config_row_ids(c: SettingsConfig) -> Seq<u64> {
    c.binds@.map_values(|b: Keybind| b.row_id()) + c.window_rules@.map_values(
        |r: WindowRule| r.row_id(),
    ) + c.layer_rules@.map_values(|r: LayerRule| r.row_id())
}

/// The ids that [`SettingsConfig::ensure_row_ids`] hands out are new: when
/// every id the configuration had came from the id source (lies below its
/// next id), each row that had no id gets one that is not 0 and that no
/// other row of the configuration has.
pub proof fn law_new_row_ids_unique(old: SettingsConfig, new: SettingsConfig, start: u64, i: int, j: int)
    requires
        start >= 1,
        start + old.binds@.len() + old.window_rules@.len() + old.layer_rules@.len() < u64::MAX,
        forall|k: int| 0 <= k < config_row_ids(old).len() ==> #[trigger] config_row_ids(old)[k] < start,
        ids_filled(old.binds@, new.binds@, start),
        ids_filled(old.window_rules@, new.window_rules@, (start + unassigned(old.binds@)) as u64),
        ids_filled(
            old.layer_rules@,
            new.layer_rules@,
            (start + unassigned(old.binds@) + unassigned(old.window_rules@)) as u64,
        ),
        0 <= i < config_row_ids(old).len(),
        0 <= j < config_row_ids(old).len(),
        i != j,
        config_row_ids(old)[i] == 0,
    ensures
        config_row_ids(new)[i] != 0,
        config_row_ids(new)[i] != config_row_ids(new)[j],
{
    let ob = old.binds@;
    let ow = old.window_rules@;
    let ol = old.layer_rules@;
    let nb = new.binds@;
    let nw = new.window_rules@;
    let nl = new.layer_rules@;
    lemma_unassigned_bound(ob);
    lemma_unassigned_bound(ow);
    lemma_unassigned_bound(ol);
    let s0 = start;
    let s1 = (start + unassigned(ob)) as u64;
    let s2 = (start + unassigned(ob) + unassigned(ow)) as u64;
    lemma_filled_range(ob, nb, s0);
    lemma_filled_range(ow, nw, s1);
    lemma_filled_range(ol, nl, s2);
    let a = ob.len() as int;
    let b = a + ow.len();
    let u0 = unassigned(ob) as int;
    let u1 = unassigned(ow) as int;
    let u2 = unassigned(ol) as int;
    let co = config_row_ids(old);
    let cn = config_row_ids(new);
    // The old id, the new id and the range of a new id at `i` and at `j`.
    let (oi, ni, li, hi) = if i < a {
        (ob[i].row_id(), nb[i].row_id(), s0 as int, s0 + u0)
    } else if i < b {
        (ow[i - a].row_id(), nw[i - a].row_id(), s1 as int, s1 + u1)
    } else {
        (ol[i - b].row_id(), nl[i - b].row_id(), s2 as int, s2 + u2)
    };
    let (oj, nj, lj, hj) = if j < a {
        (ob[j].row_id(), nb[j].row_id(), s0 as int, s0 + u0)
    } else if j < b {
        (ow[j - a].row_id(), nw[j - a].row_id(), s1 as int, s1 + u1)
    } else {
        (ol[j - b].row_id(), nl[j - b].row_id(), s2 as int, s2 + u2)
    };
    assert(co[i] == oi && cn[i] == ni);
    assert(co[j] == oj && cn[j] == nj);
    assert(oi == 0 ==> li <= ni < hi);
    assert(oj != 0 ==> nj == oj);
    assert(oj == 0 ==> lj <= nj < hj);
    assert(oj < start);
    if oj == 0 {
        if i < a && j < a {
            law_fresh_ids_distinct(ob, nb, s0, i, j);
        } else if a <= i < b && a <= j < b {
            law_fresh_ids_distinct(ow, nw, s1, i - a, j - a);
        } else if i >= b && j >= b {
            law_fresh_ids_distinct(ol, nl, s2, i - b, j - b);
        }
    }
}

/// After removing the rows of id `id`, that id resolves to nothing, and
/// every other id resolves to the same row as before, though its position
/// may have moved.
pub proof fn law_remove_keeps_resolution<T: RowEntry>(s: Seq<T>, id: u64, other: u64)
    requires
        other != id,
    ensures
        first_with_id(without_id(s, id), id) is None,
        first_with_id(s, other) is None <==> first_with_id(without_id(s, id), other) is None,
        first_with_id(s, other) matches Some(i) ==> without_id(s, id)[first_with_id(
            without_id(s, id),
            other,
        )->0] == s[i],
    decreases s.len(),
{
    if s.len() > 0 {
        let p = s.drop_last();
        let wp = without_id(p, id);
        law_remove_keeps_resolution(p, id, other);
        lemma_first_with_id_props(p, other);
        lemma_first_with_id_props(wp, other);
        if first_with_id(p, other) is Some {
            let i = first_with_id(p, other)->0;
            assert(s[i] == p[i]);
        }
        if s.last().row_id() != id {
            let w = wp.push(s.last());
            assert(w.drop_last() =~= wp);
            assert(w[wp.len() as int] == s.last());
            if first_with_id(wp, other) is Some {
                let j = first_with_id(wp, other)->0;
                assert(w[j] == wp[j]);
            }
        }
    }
}

// ── Operations on row vectors ─────────────────────────────────────────────────

/// Gives every row of id 0 a fresh id, in row order.
pub fn fill_ids<T: RowEntry>(v: &mut Vec<T>, ids: &mut RowIds)
    requires
        old(ids).peek() + old(v)@.len() < u64::MAX,
    ensures
        ids_filled(old(v)@, final(v)@, old(ids).peek()),
        final(ids).peek() == old(ids).peek() + unassigned(old(v)@),
        old(ids).peek() >= 1,
{
    proof {
        use_type_invariant(&*ids);
    }
    let ghost orig = v@;
    let ghost start = ids.peek();
    let mut i: usize = 0;
    proof {
        assert(orig.subrange(0, 0) =~= Seq::<T>::empty());
    }
    while i < v.len()
        invariant
            i <= v.len() == orig.len(),
            start + orig.len() < u64::MAX,
            ids.peek() == start + unassigned(orig.subrange(0, i as int)),
            forall|j: int| i <= j < orig.len() ==> #[trigger] v@[j] == orig[j],
            forall|j: int|
                0 <= j < i ==> #[trigger] v@[j] == if orig[j].row_id() != 0 {
                    orig[j]
                } else {
                    orig[j].with_row_id((start + unassigned(orig.subrange(0, j))) as u64)
                },
        decreases v.len() - i,
    {
        proof {
            lemma_unassigned_prefix_step(orig, i as int);
            lemma_unassigned_bound(orig.subrange(0, i as int));
        }
        if v[i].id() == 0 {
            let fresh = ids.fresh();
            v[i].set_id(fresh);
        }
        i = i + 1;
    }
    proof {
        assert(orig.subrange(0, orig.len() as int) =~= orig);
    }
}

/// Removes every row whose id is `id`, keeping the order of the others.
pub fn remove_id<T: RowEntry>(v: &mut Vec<T>, id: u64)
    ensures
        final(v)@ == without_id(old(v)@, id),
{
    let ghost orig = v@;
    let n = v.len();
    let mut rest: Vec<T> = Vec::new();
    std::mem::swap(v, &mut rest);
    let mut k: usize = 0;
    proof {
        assert(orig.subrange(0, 0) =~= Seq::<T>::empty());
        assert(orig.subrange(0, orig.len() as int) =~= orig);
    }
    while rest.len() > 0
        invariant
            k + rest@.len() == orig.len() == n,
            rest@ == orig.subrange(k as int, orig.len() as int),
            v@ == without_id(orig.subrange(0, k as int), id),
        decreases rest@.len(),
    {
        let row = rest.remove(0);
        proof {
            assert(orig.subrange(0, k + 1).drop_last() =~= orig.subrange(0, k as int));
            assert(orig.subrange(k + 1, orig.len() as int) =~= rest@);
        }
        if row.id() != id {
            v.push(row);
        }
        k = k + 1;
    }
    proof {
        assert(orig.subrange(0, k as int) =~= orig);
    }
}

/// The position of the first row with id `id`, if any.
pub fn position_of<T: RowEntry>(v: &Vec<T>, id: u64) -> (r: Option<usize>)
    ensures
        r matches Some(i) ==> i < v.len() && first_with_id(v@, id) == Some(i as int),
        r is None ==> first_with_id(v@, id) is None,
{
    let mut i: usize = 0;
    while i < v.len()
        invariant
            i <= v.len(),
            forall|j: int| 0 <= j < i ==> #[trigger] v@[j].row_id() != id,
        decreases v.len() - i,
    {
        if v[i].id() == id {
            proof {
                lemma_first_with_id(v@, id, i as int);
            }
            return Some(i);
        }
        i = i + 1;
    }
    proof {
        lemma_first_with_id_props(v@, id);
        if first_with_id(v@, id) is Some {
            let k = first_with_id(v@, id)->0;
            assert(v@[k].row_id() != id);
        }
    }
    None
}

// ── The config's row operations ───────────────────────────────────────────────

impl SettingsConfig {
    /// Every other part of the config is as in `other`.
    pub open spec fn same_except_rows(self, other: Self) -> bool {
        &&& self.input == other.input
        &&& self.layout == other.layout
        &&& self.misc == other.misc
        &&& self.anim == other.anim
        &&& self.gestures == other.gestures
        &&& self.workspaces == other.workspaces
        &&& self.recent_windows == other.recent_windows
        &&& self.debug == other.debug
        &&& self.outputs == other.outputs
        &&& self.switch_events == other.switch_events
    }

    /// Assigns a fresh id to every keybind, window rule and layer rule that
    /// has none yet (id 0). Rows with an id keep it.
    pub fn ensure_row_ids(&mut self, ids: &mut RowIds)
        requires
            old(ids).peek() + old(self).binds@.len() + old(self).window_rules@.len()
                + old(self).layer_rules@.len() < u64::MAX,
        ensures
            ids_filled(old(self).binds@, final(self).binds@, old(ids).peek()),
            ids_filled(
                old(self).window_rules@,
                final(self).window_rules@,
                (old(ids).peek() + unassigned(old(self).binds@)) as u64,
            ),
            ids_filled(
                old(self).layer_rules@,
                final(self).layer_rules@,
                (old(ids).peek() + unassigned(old(self).binds@) + unassigned(
                    old(self).window_rules@,
                )) as u64,
            ),
            final(ids).peek() == old(ids).peek() + unassigned(old(self).binds@) + unassigned(
                old(self).window_rules@,
            ) + unassigned(old(self).layer_rules@),
            final(self).same_except_rows(*old(self)),
            old(ids).peek() >= 1,
            config_row_ids(*final(self)).len() == config_row_ids(*old(self)).len(),
            forall|k: int|
                0 <= k < config_row_ids(*final(self)).len() ==> #[trigger] config_row_ids(
                    *final(self),
                )[k] != 0,
            (forall|k: int|
                0 <= k < config_row_ids(*old(self)).len() ==> #[trigger] config_row_ids(*old(self))[k]
                    < old(ids).peek()) ==> forall|i: int, j: int|
                0 <= i < config_row_ids(*old(self)).len() && 0 <= j < config_row_ids(
                    *old(self),
                ).len() && i != j && config_row_ids(*old(self))[i] == 0 ==> #[trigger] config_row_ids(
                    *final(self),
                )[i] != #[trigger] config_row_ids(*final(self))[j],
    {
        let ghost before = *self;
        let ghost start = ids.peek();
        proof {
            use_type_invariant(&*ids);
            lemma_unassigned_bound(self.binds@);
            lemma_unassigned_bound(self.window_rules@);
            lemma_unassigned_bound(self.layer_rules@);
        }
        fill_ids(&mut self.binds, ids);
        fill_ids(&mut self.window_rules, ids);
        fill_ids(&mut self.layer_rules, ids);
        proof {
            let after = *self;
            let s1 = (start + unassigned(before.binds@)) as u64;
            let s2 = (start + unassigned(before.binds@) + unassigned(before.window_rules@)) as u64;
            law_filled_ids_nonzero(before.binds@, after.binds@, start);
            law_filled_ids_nonzero(before.window_rules@, after.window_rules@, s1);
            law_filled_ids_nonzero(before.layer_rules@, after.layer_rules@, s2);
            let a = before.binds@.len() as int;
            let b = a + before.window_rules@.len();
            assert(config_row_ids(after).len() == config_row_ids(before).len());
            assert forall|k: int| 0 <= k < config_row_ids(after).len() implies #[trigger] config_row_ids(
                after,
            )[k] != 0 by {
                if k < a {
                    assert(config_row_ids(after)[k] == after.binds@[k].row_id());
                } else if k < b {
                    assert(config_row_ids(after)[k] == after.window_rules@[k - a].row_id());
                } else {
                    assert(config_row_ids(after)[k] == after.layer_rules@[k - b].row_id());
                }
            }
            if forall|k: int|
                0 <= k < config_row_ids(before).len() ==> #[trigger] config_row_ids(before)[k] < start {
                assert forall|i: int, j: int|
                    0 <= i < config_row_ids(before).len() && 0 <= j < config_row_ids(before).len() && i
                        != j && config_row_ids(before)[i] == 0 implies #[trigger] config_row_ids(after)[i]
                    != #[trigger] config_row_ids(after)[j] by {
                    law_new_row_ids_unique(before, after, start, i, j);
                }
            }
        }
    }

    /// Mutable access to a keybind by its id, if it still exists.
    pub fn bind_mut(&mut self, id: u64) -> (r: Option<&mut Keybind>)
        ensures
            first_with_id(old(self).binds@, id) is None ==> r is None && *final(self) == *old(
                self,
            ),
            first_with_id(old(self).binds@, id) matches Some(i) ==> r matches Some(b) && *b
                == old(self).binds@[i] && final(self).binds@ == old(self).binds@.update(
                i,
                *final(b),
            ) && final(self).same_except_rows(*old(self)) && final(self).window_rules
                == old(self).window_rules && final(self).layer_rules == old(self).layer_rules,
    {
        match position_of(&self.binds, id) {
            Some(i) => Some(&mut self.binds[i]),
            None => None,
        }
    }

    /// Mutable access to a window rule by its id, if it still exists.
    pub fn window_rule_mut(&mut self, id: u64) -> (r: Option<&mut WindowRule>)
        ensures
            first_with_id(old(self).window_rules@, id) is None ==> r is None && *final(self)
                == *old(self),
            first_with_id(old(self).window_rules@, id) matches Some(i) ==> r matches Some(w)
                && *w == old(self).window_rules@[i] && final(self).window_rules@ == old(
                self,
            ).window_rules@.update(i, *final(w)) && final(self).same_except_rows(*old(self))
                && final(self).binds == old(self).binds && final(self).layer_rules == old(
                self,
            ).layer_rules,
    {
        match position_of(&self.window_rules, id) {
            Some(i) => Some(&mut self.window_rules[i]),
            None => None,
        }
    }

    /// Mutable access to a layer rule by its id, if it still exists.
    pub fn layer_rule_mut(&mut self, id: u64) -> (r: Option<&mut LayerRule>)
        ensures
            first_with_id(old(self).layer_rules@, id) is None ==> r is None && *final(self)
                == *old(self),
            first_with_id(old(self).layer_rules@, id) matches Some(i) ==> r matches Some(l)
                && *l == old(self).layer_rules@[i] && final(self).layer_rules@ == old(
                self,
            ).layer_rules@.update(i, *final(l)) && final(self).same_except_rows(*old(self))
                && final(self).binds == old(self).binds && final(self).window_rules == old(
                self,
            ).window_rules,
    {
        match position_of(&self.layer_rules, id) {
            Some(i) => Some(&mut self.layer_rules[i]),
            None => None,
        }
    }

    /// Removes a keybind by id. No-op if already gone.
    pub fn remove_bind(&mut self, id: u64)
        ensures
            final(self).binds@ == without_id(old(self).binds@, id),
            final(self).window_rules == old(self).window_rules,
            final(self).layer_rules == old(self).layer_rules,
            final(self).same_except_rows(*old(self)),
    {
        remove_id(&mut self.binds, id);
    }

    /// Removes a window rule by id. No-op if already gone.
    pub fn remove_window_rule(&mut self, id: u64)
        ensures
            final(self).window_rules@ == without_id(old(self).window_rules@, id),
            final(self).binds == old(self).binds,
            final(self).layer_rules == old(self).layer_rules,
            final(self).same_except_rows(*old(self)),
    {
        remove_id(&mut self.window_rules, id);
    }

    /// Removes a layer rule by id. No-op if already gone.
    pub fn remove_layer_rule(&mut self, id: u64)
        ensures
            final(self).layer_rules@ == without_id(old(self).layer_rules@, id),
            final(self).binds == old(self).binds,
            final(self).window_rules == old(self).window_rules,
            final(self).same_except_rows(*old(self)),
    {
        remove_id(&mut self.layer_rules, id);
    }
}

} // verus!
