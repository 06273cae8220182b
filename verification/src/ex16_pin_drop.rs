//! A registry of listeners that the C side dispatches events to, with ids
//! handed out at registration and entries removed at deregistration, and
//! listener wrappers that register on creation and deregister on release.

use vstd::prelude::*;
use crate::text::{int_to_decimal, push_char, push_i64};

verus! {

/// One registered listener: its id, name and weight.
pub struct CListenerEntry {
    pub id: u64,
    pub name: String,
    pub weight: i32,
}

/// The (id, name, weight) of an entry.
pub open spec fn entry_view(e: CListenerEntry) -> (u64, Seq<char>, i32) {
    (e.id, e.name@, e.weight)
}

/// The registry: its entries in registration order, and the next id.
pub struct Registry {
    entries: Vec<CListenerEntry>,
    next_id: u64,
}

/// What a registry holds.
pub struct RegistryView {
    pub entries: Seq<(u64, Seq<char>, i32)>,
    pub next_id: u64,
}

impl View for Registry {
    type V = RegistryView;

    closed spec fn view(&self) -> RegistryView {
        RegistryView { entries: self.entries@.map_values(|e: CListenerEntry| entry_view(e)), next_id: self.next_id }
    }
}

/// Ids increase along the entries and stay below the next id, so no two
/// entries share an id.
pub open spec fn registry_wf(r: RegistryView) -> bool {
    &&& r.next_id >= 1
    &&& forall|i: int| 0 <= i < r.entries.len() ==> #[trigger] r.entries[i].0 < r.next_id
    &&& forall|i: int, j: int| 0 <= i < j < r.entries.len() ==> r.entries[i].0 < r.entries[j].0
}

/// The entries without those of id `id`.
pub open spec fn without_id(s: Seq<(u64, Seq<char>, i32)>, id: u64) -> Seq<(u64, Seq<char>, i32)>
    decreases s.len(),
{
    if s.len() == 0 {
        s
    } else if s.last().0 == id {
        without_id(s.drop_last(), id)
    } else {
        without_id(s.drop_last(), id).push(s.last())
    }
}

/// The line a listener gives for an event: `"name:value"`.
pub open spec fn dispatch_line(name: Seq<char>, value: int) -> Seq<char> {
    name + seq![':'] + int_to_decimal(value)
}

/// Every listener's weight times `event` fits an `i32`.
pub open spec fn dispatch_fits(entries: Seq<(u64, Seq<char>, i32)>, event: i32) -> bool {
    forall|i: int| 0 <= i < entries.len() ==> i32::MIN <= event * #[trigger] entries[i].2 <= i32::MAX
}

/// The lines of a dispatch, one per entry in order.
pub open spec fn dispatch_lines(entries: Seq<(u64, Seq<char>, i32)>, event: i32) -> Seq<Seq<char>> {
    entries.map_values(|e: (u64, Seq<char>, i32)| dispatch_line(e.1, event * e.2))
}

proof fn lemma_without_id_props(s: Seq<(u64, Seq<char>, i32)>, id: u64)
    ensures
        without_id(s, id).len() <= s.len(),
        forall|k: int| 0 <= k < without_id(s, id).len() ==> s.contains(#[trigger] without_id(s, id)[k]),
        forall|k: int| 0 <= k < without_id(s, id).len() ==> #[trigger] without_id(s, id)[k].0 != id,
    decreases s.len(),
{
    if s.len() > 0 {
        lemma_without_id_props(s.drop_last(), id);
        let w = without_id(s.drop_last(), id);
        assert forall|k: int| 0 <= k < w.len() implies s.contains(#[trigger] w[k]) by {
            let j = choose|j: int| 0 <= j < s.drop_last().len() && s.drop_last()[j] == w[k];
            assert(s[j] == w[k]);
        }
        assert(s[s.len() - 1] == s.last());
    }
}

impl Registry {
    /// Every registry is well formed.
    #[verifier::type_invariant]
    closed spec fn well_formed(&self) -> bool {
        registry_wf(self@)
    }
}

/// A new, empty registry; the first id handed out is 1.
pub fn registry_new() -> (r: Registry)
    ensures
        r@.entries == Seq::<(u64, Seq<char>, i32)>::empty(),
        r@.next_id == 1,
        registry_wf(r@),
{
    let r = Registry { entries: Vec::new(), next_id: 1 };
    assert(r@.entries =~= Seq::<(u64, Seq<char>, i32)>::empty());
    r
}

/// Registers a listener and returns its fresh id.
pub fn c_register(reg: &mut Registry, name: &str, weight: i32) -> (id: u64)
    requires
        old(reg)@.next_id < u64::MAX,
    ensures
        id == old(reg)@.next_id,
        final(reg)@.entries == old(reg)@.entries.push((id, name@, weight)),
        final(reg)@.next_id == id + 1,
        registry_wf(final(reg)@),
{
    proof {
        use_type_invariant(&*reg);
    }
    let id = reg.next_id;
    let mut entries: Vec<CListenerEntry> = Vec::new();
    assert(entries@.map_values(|e: CListenerEntry| entry_view(e)) =~= Seq::<(u64, Seq<char>, i32)>::empty());
    std::mem::swap(&mut entries, &mut reg.entries);
    let ghost before = entries@;
    entries.push(CListenerEntry { id, name: name.to_owned(), weight });
    proof {
        let ev = entries@.map_values(|e: CListenerEntry| entry_view(e));
        assert(ev =~= before.map_values(|e: CListenerEntry| entry_view(e)).push((id, name@, weight)));
        assert(ev =~= old(reg)@.entries.push((id, name@, weight)));
    }
    assert(reg@.entries =~= Seq::<(u64, Seq<char>, i32)>::empty());
    reg.next_id = id + 1;
    reg.entries = entries;
    assert(reg@.entries =~= old(reg)@.entries.push((id, name@, weight)));
    id
}

/// Removes the entries of id `id`; nothing else changes.
pub fn c_deregister(reg: &mut Registry, id: u64)
    ensures
        final(reg)@.entries == without_id(old(reg)@.entries, id),
        final(reg)@.next_id == old(reg)@.next_id,
        registry_wf(final(reg)@),
{
    proof {
        use_type_invariant(&*reg);
    }
    let mut kept: Vec<CListenerEntry> = Vec::new();
    let ghost all = reg@.entries;
    let mut old_entries: Vec<CListenerEntry> = Vec::new();
    std::mem::swap(&mut old_entries, &mut reg.entries);
    let n = old_entries.len();
    let mut i: usize = 0;
    while i < n
        invariant
            n == old_entries@.len(),
            i <= n,
            all == old_entries@.map_values(|e: CListenerEntry| entry_view(e)),
            kept@.map_values(|e: CListenerEntry| entry_view(e)) == without_id(all.take(i as int), id),
        decreases n - i,
    {
        let e = &old_entries[i];
        assert(all.take(i as int + 1).drop_last() =~= all.take(i as int));
        if e.id != id {
            let ghost before = kept@;
            kept.push(CListenerEntry { id: e.id, name: e.name.clone(), weight: e.weight });
            assert(kept@.map_values(|e: CListenerEntry| entry_view(e)) =~= before.map_values(
                |e: CListenerEntry| entry_view(e),
            ).push(all[i as int]));
        }
        i = i + 1;
    }
    assert(all.take(n as int) =~= all);
    proof {
        lemma_without_id_props(all, id);
        let w = without_id(all, id);
        assert(kept@.map_values(|e: CListenerEntry| entry_view(e)) == w);
        assert forall|i: int| 0 <= i < w.len() implies #[trigger] w[i].0 < old(reg)@.next_id by {
            assert(all.contains(w[i]));
        }
        lemma_without_id_ordered(all, id);
    }
    reg.entries = kept;
}

proof fn lemma_without_id_ordered(s: Seq<(u64, Seq<char>, i32)>, id: u64)
    requires
        forall|i: int, j: int| 0 <= i < j < s.len() ==> s[i].0 < s[j].0,
    ensures
        forall|i: int, j: int| 0 <= i < j < without_id(s, id).len() ==> without_id(s, id)[i].0 < without_id(
            s,
            id,
        )[j].0,
    decreases s.len(),
{
    if s.len() > 0 {
        let p = s.drop_last();
        lemma_without_id_ordered(p, id);
        lemma_without_id_props(p, id);
        let w = without_id(p, id);
        if s.last().0 != id {
            assert forall|i: int| 0 <= i < w.len() implies #[trigger] w[i].0 < s.last().0 by {
                assert(p.contains(w[i]));
                let j = choose|j: int| 0 <= j < p.len() && p[j] == w[i];
                assert(s[j] == p[j]);
                assert(s[s.len() - 1] == s.last());
            }
        }
    }
}

/// Appends the line `"name:value"` to `out`.
fn push_line(out: &mut Vec<String>, name: &String, value: i32)
    ensures
        final(out)@.map_values(|s: String| s@) == old(out)@.map_values(|s: String| s@).push(
            dispatch_line(name@, value as int),
        ),
{
    let mut line = name.clone();
    push_char(&mut line, ':');
    push_i64(&mut line, value as i64);
    assert(line@ =~= dispatch_line(name@, value as int));
    let ghost before = out@;
    out.push(line);
    assert(out@.map_values(|s: String| s@) =~= before.map_values(|s: String| s@).push(
        dispatch_line(name@, value as int),
    ));
}

/// The lines every registered listener gives for `event`, in registration
/// order.
pub fn c_dispatch(reg: &Registry, event: i32) -> (r: Vec<String>)
    requires
        dispatch_fits(reg@.entries, event),
    ensures
        r@.map_values(|s: String| s@) == dispatch_lines(reg@.entries, event),
{
    let mut out: Vec<String> = Vec::new();
    let n = reg.entries.len();
    let mut i: usize = 0;
    while i < n
        invariant
            n == reg@.entries.len(),
            i <= n,
            dispatch_fits(reg@.entries, event),
            out@.map_values(|s: String| s@) == dispatch_lines(reg@.entries.take(i as int), event),
        decreases n - i,
    {
        let e = &reg.entries[i];
        assert(reg@.entries[i as int] == entry_view(*e));
        assert(i32::MIN <= event * reg@.entries[i as int].2 <= i32::MAX);
        let v: i32 = event * e.weight;
        push_line(&mut out, &e.name, v);
        assert(dispatch_lines(reg@.entries.take(i as int + 1), event) =~= dispatch_lines(
            reg@.entries.take(i as int),
            event,
        ).push(dispatch_line(e.name@, v as int)));
        i = i + 1;
    }
    assert(reg@.entries.take(n as int) =~= reg@.entries);
    out
}

/// Whether `c_dispatch(reg, event)` computes every value without overflow.
pub fn dispatch_in_range(reg: &Registry, event: i32) -> (r: bool)
    ensures
        r == dispatch_fits(reg@.entries, event),
{
    let n = reg.entries.len();
    let mut i: usize = 0;
    while i < n
        invariant
            n == reg@.entries.len(),
            i <= n,
            forall|j: int| 0 <= j < i ==> i32::MIN <= event * #[trigger] reg@.entries[j].2 <= i32::MAX,
        decreases n - i,
    {
        let e = &reg.entries[i];
        assert(reg@.entries[i as int] == entry_view(*e));
        let a: i64 = event as i64;
        let b: i64 = e.weight as i64;
        assert(-0x8000_0000 * 0x8000_0000 <= a * b <= 0x8000_0000 * 0x8000_0000) by (nonlinear_arith)
            requires -0x8000_0000 <= a <= 0x7fff_ffff, -0x8000_0000 <= b <= 0x7fff_ffff;
        let v: i64 = a * b;
        if v < -0x8000_0000 || v > 0x7fff_ffff {
            assert(!(i32::MIN <= event * reg@.entries[i as int].2 <= i32::MAX));
            return false;
        }
        i = i + 1;
    }
    true
}

/// How many more listeners can be registered before the ids run out.
pub fn registry_room(reg: &Registry) -> (r: u64)
    ensures
        r == u64::MAX - reg@.next_id,
{
    u64::MAX - reg.next_id
}

/// Number of registered listeners.
pub fn c_registry_len(reg: &Registry) -> (r: usize)
    ensures
        r == reg@.entries.len(),
{
    reg.entries.len()
}

/// Removes every listener (ids keep counting).
pub fn c_registry_clear(reg: &mut Registry)
    ensures
        final(reg)@.entries == Seq::<(u64, Seq<char>, i32)>::empty(),
        final(reg)@.next_id == old(reg)@.next_id,
        registry_wf(final(reg)@),
{
    proof {
        use_type_invariant(&*reg);
    }
    let empty: Vec<CListenerEntry> = Vec::new();
    assert(empty@.map_values(|e: CListenerEntry| entry_view(e)) =~= Seq::<(u64, Seq<char>, i32)>::empty());
    reg.entries = empty;
    assert(reg@.entries =~= Seq::<(u64, Seq<char>, i32)>::empty());
}

/// A listener kept at a fixed heap place while registered.
pub struct Listener {
    pub name: String,
    pub weight: i32,
    pub registry_id: Option<u64>,
}

impl Listener {
    /// A new listener on the heap, registered under a fresh id.
    pub fn new_pinned(reg: &mut Registry, name: &str, weight: i32) -> (r: Box<Listener>)
        requires
            old(reg)@.next_id < u64::MAX,
        ensures
            r.name@ == name@,
            r.weight == weight,
            r.registry_id == Some(old(reg)@.next_id),
            final(reg)@.entries == old(reg)@.entries.push((old(reg)@.next_id, name@, weight)),
            final(reg)@.next_id == old(reg)@.next_id + 1,
            registry_wf(final(reg)@),
    {
        let id = c_register(reg, name, weight);
        Box::new(Listener { name: name.to_owned(), weight, registry_id: Some(id) })
    }

    /// Deregisters the listener as it goes away.
    pub fn release(self, reg: &mut Registry)
        ensures
            final(reg)@.entries == (match self.registry_id {
                Some(id) => without_id(old(reg)@.entries, id),
                None => old(reg)@.entries,
            }),
            final(reg)@.next_id == old(reg)@.next_id,
            registry_wf(final(reg)@),
    {
        proof {
            use_type_invariant(&*reg);
        }
        match self.registry_id {
            Some(id) => c_deregister(reg, id),
            None => {},
        }
    }
}

/// A registered listener that cannot move; deregistered on release.
pub struct PinnedListener {
    inner: Box<Listener>,
}

impl PinnedListener {
    /// The listener's name.
    pub closed spec fn name_view(&self) -> Seq<char> {
        self.inner.name@
    }

    /// The listener's weight.
    pub closed spec fn weight_view(&self) -> i32 {
        self.inner.weight
    }

    /// The id it is registered under.
    pub closed spec fn id_view(&self) -> Option<u64> {
        self.inner.registry_id
    }

    /// A new listener, registered under a fresh id.
    pub fn new(reg: &mut Registry, name: &str, weight: i32) -> (r: Self)
        requires
            old(reg)@.next_id < u64::MAX,
        ensures
            r.name_view() == name@,
            r.weight_view() == weight,
            r.id_view() == Some(old(reg)@.next_id),
            final(reg)@.entries == old(reg)@.entries.push((old(reg)@.next_id, name@, weight)),
            final(reg)@.next_id == old(reg)@.next_id + 1,
            registry_wf(final(reg)@),
    {
        PinnedListener { inner: Listener::new_pinned(reg, name, weight) }
    }

    /// The listener's name.
    pub fn name(&self) -> (r: &str)
        ensures
            r@ == self.name_view(),
    {
        self.inner.name.as_str()
    }

    /// The listener's weight.
    pub fn weight(&self) -> (r: i32)
        ensures
            r == self.weight_view(),
    {
        self.inner.weight
    }

    /// Deregisters the listener as it goes away.
    pub fn release(self, reg: &mut Registry)
        ensures
            final(reg)@.entries == (match self.id_view() {
                Some(id) => without_id(old(reg)@.entries, id),
                None => old(reg)@.entries,
            }),
            final(reg)@.next_id == old(reg)@.next_id,
            registry_wf(final(reg)@),
    {
        let PinnedListener { inner } = self;
        (*inner).release(reg);
    }
}

/// A listener that may move; it is not registered (its id is a placeholder).
pub struct UnpinnedListener {
    pub name: String,
    pub weight: i32,
    pub registry_id: Option<u64>,
}

impl UnpinnedListener {
    /// A listener on the heap with the placeholder id 0.
    pub fn new_registered(name: &str, weight: i32) -> (r: Box<UnpinnedListener>)
        ensures
            r.name@ == name@,
            r.weight == weight,
            r.registry_id == Some(0u64),
    {
        Box::new(UnpinnedListener { name: name.to_owned(), weight, registry_id: Some(0) })
    }
}

/// Without an entry of id `id`, removing `id` changes nothing.
proof fn lemma_without_absent(s: Seq<(u64, Seq<char>, i32)>, id: u64)
    requires
        forall|i: int| 0 <= i < s.len() ==> #[trigger] s[i].0 != id,
    ensures
        without_id(s, id) == s,
    decreases s.len(),
{
    if s.len() > 0 {
        lemma_without_absent(s.drop_last(), id);
        assert(s.drop_last().push(s.last()) =~= s);
    }
}

/// Registering a listener and deregistering its id gives back the entries
/// that were there before.
pub proof fn law_register_then_deregister(before: RegistryView, name: Seq<char>, weight: i32)
    requires
        registry_wf(before),
    ensures
        without_id(before.entries.push((before.next_id, name, weight)), before.next_id) == before.entries,
{
    let s = before.entries.push((before.next_id, name, weight));
    assert(s.drop_last() =~= before.entries);
    lemma_without_absent(before.entries, before.next_id);
}

/// Registers listeners "alpha" (weight 2) and "beta" (weight 3), dispatches
/// `event`, deregisters both, and returns the lines; the registry keeps
/// its earlier entries.
pub fn safe_dispatch(reg: &mut Registry, event: i32) -> (r: Vec<String>)
    requires
        old(reg)@.next_id < u64::MAX - 1,
        dispatch_fits(old(reg)@.entries, event),
        i32::MIN <= event * 3 <= i32::MAX,
    ensures
        r@.map_values(|s: String| s@) == dispatch_lines(old(reg)@.entries, event) + seq![
            dispatch_line("alpha"@, event * 2),
            dispatch_line("beta"@, event * 3),
        ],
        final(reg)@.entries == old(reg)@.entries,
        final(reg)@.next_id == old(reg)@.next_id + 2,
        registry_wf(final(reg)@),
{
    proof {
        use_type_invariant(&*reg);
    }
    let ghost e0 = reg@.entries;
    let ghost id0 = reg@.next_id;
    let a = PinnedListener::new(reg, "alpha", 2);
    let b = PinnedListener::new(reg, "beta", 3);
    let ghost e2 = reg@.entries;
    assert(e2 == e0.push((id0, "alpha"@, 2i32)).push(((id0 + 1) as u64, "beta"@, 3i32)));
    assert(dispatch_fits(e2, event)) by {
        assert forall|i: int| 0 <= i < e2.len() implies i32::MIN <= event * #[trigger] e2[i].2 <= i32::MAX by {
            if i < e0.len() {
                assert(e2[i] == e0[i]);
            } else if i == e0.len() {
                assert(i32::MIN <= event * 2 <= i32::MAX) by (nonlinear_arith)
                    requires i32::MIN <= event * 3 <= i32::MAX;
            }
        }
    }
    let lines = c_dispatch(reg, event);
    assert(dispatch_lines(e2, event) =~= dispatch_lines(e0, event) + seq![
        dispatch_line("alpha"@, event * 2),
        dispatch_line("beta"@, event * 3),
    ]);
    b.release(reg);
    proof {
        let s1 = e0.push((id0, "alpha"@, 2i32));
        assert(e2.drop_last() =~= s1);
        assert forall|i: int| 0 <= i < s1.len() implies #[trigger] s1[i].0 != id0 + 1 by {
            if i < e0.len() {
                assert(e0[i].0 < id0);
            }
        }
        lemma_without_absent(s1, (id0 + 1) as u64);
        assert(reg@.entries == s1);
    }
    a.release(reg);
    proof {
        law_register_then_deregister(RegistryView { entries: e0, next_id: id0 }, "alpha"@, 2i32);
    }
    lines
}

} // verus!
