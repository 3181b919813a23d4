//! The component registry: append-only arenas of component instances, one
//! arena per declared kind, behind stable integer handles. A handle is the
//! index the instance was appended at; instances are never removed, so a
//! handle stays valid for the life of the process.

use vstd::prelude::*;
use crate::CustomElement;

verus! {

broadcast use vstd::std_specs::hash::group_hash_axioms;

/// A stable identifier for one kind of component. Each kind owns its own
/// arena, so handles of different kinds never collide.
pub type TypeKey = u64;

/// Append-only storage of component instances of type `C`, partitioned
/// into one arena per kind.
pub struct Registry<C> {
    arenas: std::collections::HashMap<TypeKey, Vec<C>>,
}

/// The instances stored under `kind` in the arena map `m`, oldest first;
/// empty for a kind that was never added to.
pub open spec fn arena_of<C>(m: Map<TypeKey, Seq<C>>, kind: TypeKey) -> Seq<C> {
    if m.dom().contains(kind) {
        m[kind]
    } else {
        Seq::empty()
    }
}

/// One `add` step on the arena map `m`: the item is appended to the arena
/// of its kind, and every other arena is untouched.
pub open spec fn add_step<C>(m: Map<TypeKey, Seq<C>>, kind: TypeKey, item: C) -> Map<
    TypeKey,
    Seq<C>,
> {
    m.insert(kind, arena_of(m, kind).push(item))
}

/// The arena map after a sequence of `add` calls, applied oldest first.
pub open spec fn apply_adds<C>(m: Map<TypeKey, Seq<C>>, ops: Seq<(TypeKey, C)>) -> Map<
    TypeKey,
    Seq<C>,
>
    decreases ops.len(),
{
    if ops.len() == 0 {
        m
    } else {
        apply_adds(add_step(m, ops[0].0, ops[0].1), ops.drop_first())
    }
}

/// The registry only grows: every arena of `pre` is a prefix of the same
/// arena of `post`, so every handle issued in `pre` is still valid in
/// `post` and still names the instance it was issued for.
pub open spec fn grows_from<C>(pre: Map<TypeKey, Seq<C>>, post: Map<TypeKey, Seq<C>>) -> bool {
    forall|k: TypeKey| arena_of(pre, k).is_prefix_of(arena_of(post, k))
}

impl<C> Registry<C> {
    /// The registry's contents: for each kind, the sequence of instances
    /// added under that kind, oldest first.
    pub closed spec fn arenas(self) -> Map<TypeKey, Seq<C>> {
        self.arenas@.map_values(|v: Vec<C>| v@)
    }

    /// The instances stored under `kind`, oldest first.
    pub open spec fn arena(self, kind: TypeKey) -> Seq<C> {
        arena_of(self.arenas(), kind)
    }

    /// An empty registry.
    pub fn new() -> (registry: Self)
        ensures
            forall|k: TypeKey| registry.arena(k) == Seq::<C>::empty(),
    {
        let registry = Registry { arenas: std::collections::HashMap::new() };
        proof {
            assert forall|k: TypeKey| registry.arena(k) == Seq::<C>::empty() by {
                assert(!registry.arenas().dom().contains(k));
            }
        }
        registry
    }

    /// Appends `item` to the arena of `kind`, creating that arena on first
    /// use, and returns the new instance's index as its handle. Never
    /// fails; every arena is extended only at its end, so handles already
    /// issued keep their values.
    pub fn add(&mut self, kind: TypeKey, item: C) -> (handle: CustomElement)
        ensures
            final(self).arenas() == add_step(old(self).arenas(), kind, item),
            handle == old(self).arena(kind).len(),
            final(self).arena(kind) == old(self).arena(kind).push(item),
            forall|k: TypeKey| k != kind ==> final(self).arena(k) == old(self).arena(k),
    {
        let mut v: Vec<C> = match self.arenas.remove(&kind) {
            Some(v) => v,
            None => Vec::new(),
        };
        let ghost pre = old(self).arenas();
        let handle = v.len();
        v.push(item);
        self.arenas.insert(kind, v);
        proof {
            assert(final(self).arenas() =~= add_step(pre, kind, item));
            assert forall|k: TypeKey| k != kind implies final(self).arena(k) == old(self).arena(
                k,
            ) by {
                assert(arena_of(add_step(pre, kind, item), k) == arena_of(pre, k));
            }
        }
        handle
    }

    /// A read reference to the instance that `handle` was issued for.
    /// A handle of the wrong kind or out of range is an internal
    /// bookkeeping error, not valid input, so it is excluded outright.
    pub fn get(&self, kind: TypeKey, handle: CustomElement) -> (instance: &C)
        requires
            handle < self.arena(kind).len(),
        ensures
            *instance == self.arena(kind)[handle as int],
    {
        let v: &Vec<C> = self.arenas.get(&kind).unwrap();
        &v[handle]
    }

    /// How many instances the arena of `kind` holds.
    pub fn count(&self, kind: TypeKey) -> (n: usize)
        ensures
            n == self.arena(kind).len(),
    {
        match self.arenas.get(&kind) {
            Some(v) => v.len(),
            None => 0,
        }
    }
}

/// A registry grows from itself: nothing changed, so nothing shrank.
pub proof fn lemma_grows_refl<C>(m: Map<TypeKey, Seq<C>>)
    ensures
        grows_from(m, m),
{
    assert forall|k: TypeKey| arena_of(m, k).is_prefix_of(arena_of(m, k)) by {
        assert(arena_of(m, k) =~= arena_of(m, k).subrange(0, arena_of(m, k).len() as int));
    }
}

/// What `grows_from` means for one handle: a handle valid before the
/// growth is still valid after it, and still names the same instance.
pub proof fn lemma_grows_preserves<C>(
    pre: Map<TypeKey, Seq<C>>,
    post: Map<TypeKey, Seq<C>>,
    kind: TypeKey,
    handle: int,
)
    requires
        grows_from(pre, post),
        0 <= handle < arena_of(pre, kind).len(),
    ensures
        arena_of(post, kind).len() >= arena_of(pre, kind).len(),
        arena_of(post, kind)[handle] == arena_of(pre, kind)[handle],
{
    let a = arena_of(pre, kind);
    let b = arena_of(post, kind);
    assert(a.is_prefix_of(b));
    assert(a[handle] == b.subrange(0, a.len() as int)[handle]);
}

/// Growth is transitive: what only ever gains entries through two stages
/// has gained them over the whole.
pub proof fn lemma_grows_trans<C>(
    a: Map<TypeKey, Seq<C>>,
    b: Map<TypeKey, Seq<C>>,
    c: Map<TypeKey, Seq<C>>,
)
    requires
        grows_from(a, b),
        grows_from(b, c),
    ensures
        grows_from(a, c),
{
    assert forall|k: TypeKey| arena_of(a, k).is_prefix_of(arena_of(c, k)) by {
        let sa = arena_of(a, k);
        let sb = arena_of(b, k);
        let sc = arena_of(c, k);
        assert(sa.is_prefix_of(sb));
        assert(sb.is_prefix_of(sc));
        assert forall|i: int| 0 <= i < sa.len() implies sa[i] == sc.subrange(
            0,
            sa.len() as int,
        )[i] by {
            assert(sa[i] == sb.subrange(0, sa.len() as int)[i]);
            assert(sb[i] == sc.subrange(0, sb.len() as int)[i]);
        }
        assert(sa =~= sc.subrange(0, sa.len() as int));
    }
}

/// Handle stability: whatever sequence of `add` calls follows, for any
/// kind at all, a handle already issued keeps referring to the value it
/// was issued for.
pub proof fn lemma_handle_stable<C>(
    m: Map<TypeKey, Seq<C>>,
    ops: Seq<(TypeKey, C)>,
    kind: TypeKey,
    handle: int,
)
    requires
        0 <= handle < arena_of(m, kind).len(),
    ensures
        arena_of(apply_adds(m, ops), kind).len() >= arena_of(m, kind).len(),
        arena_of(apply_adds(m, ops), kind)[handle] == arena_of(m, kind)[handle],
    decreases ops.len(),
{
    if ops.len() > 0 {
        let m1 = add_step(m, ops[0].0, ops[0].1);
        assert(arena_of(m1, kind).len() >= arena_of(m, kind).len());
        assert(arena_of(m1, kind)[handle] == arena_of(m, kind)[handle]);
        lemma_handle_stable(m1, ops.drop_first(), kind, handle);
    }
}

/// Type isolation: an `add` under one kind never touches the arena of any
/// other kind, so two kinds sharing a raw index still name independent
/// values. In particular, adding `x` under `a` and then `y` under `b`
/// leaves `x` the last value of `a`'s arena and `y` the last value of
/// `b`'s.
pub proof fn lemma_type_isolation<C>(m: Map<TypeKey, Seq<C>>, a: TypeKey, b: TypeKey, x: C, y: C)
    requires
        a != b,
    ensures
        arena_of(add_step(m, a, x), b) == arena_of(m, b),
        arena_of(add_step(add_step(m, a, x), b, y), a) == arena_of(m, a).push(x),
        arena_of(add_step(add_step(m, a, x), b, y), b) == arena_of(m, b).push(y),
{
}

} // verus!
