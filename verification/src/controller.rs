//! The dispatch controller: owns the component registry and the callback
//! table, routes host events to registered behavior under the
//! remove-before-invoke / reinsert-after discipline, and holds the single
//! factory that turns a reported tag name into a new component instance.

use vstd::prelude::*;
use crate::{Callback, CustomElement, Element};
use crate::callbacks::CallbackTable;
use crate::callbacks::RoutingError;
use crate::registry::Registry;
use crate::registry::TypeKey;
use crate::registry::add_step;
use crate::registry::arena_of;
use crate::registry::grows_from;
use crate::registry::lemma_grows_refl;

verus! {

/// What `str::to_lowercase` returns for the given characters.
pub uninterp spec fn lower_of(s: Seq<char>) -> Seq<char>;

/// Relies on str::to_lowercase: the result depends on the characters of
/// the input alone.
#[verifier::external_body]
fn lowercase(s: &str) -> (r: String)
    ensures
        r@ == lower_of(s@),
{
    s.to_lowercase()
}

/// The single object the host-facing entry points operate on. `C` is the
/// component instance type, `B` the deferred-behavior type held in the
/// callback table, and `F` the factory installed at startup.
///
/// The controller is built once, before any event is routed, and the
/// factory it is built with is never replaced: every operation leaves
/// `spec_processor` unchanged.
pub struct CustomElements<C, B, F> {
    components: Registry<C>,
    callbacks: CallbackTable<B>,
    processor: F,
}

/// A unit of deferred behavior: what runs when the host routes an event to
/// the callback identifier it was registered under. An implementation may
/// read or extend the registry, register further callbacks, and route
/// events recursively.
pub trait Behavior<C, F>: Sized {
    /// Handles one routed event. The entry is invoked only while its own
    /// identifier is absent from the table, so a recursive routing of
    /// `id` from inside the call reports `UnknownCallback` instead of
    /// reaching this entry a second time.
    ///
    /// An implementation must leave every component handle valid (the
    /// registry only grows) and must not replace the factory.
    fn on_event(&mut self, cx: &mut CustomElements<C, Self, F>, id: Callback, event: i32)
        requires
            !old(cx).entries().dom().contains(id),
        ensures
            grows_from(old(cx).arenas(), final(cx).arenas()),
            final(cx).spec_processor() == old(cx).spec_processor(),
    ;
}

/// The single tag-to-component dispatch function supplied at startup. For
/// a tag it recognizes it constructs a component instance, stores it, and
/// registers the listeners that will drive it; a tag it does not recognize
/// is left unmanaged.
pub trait Factory<C, B>: Sized {
    /// Constructs whatever the (case-normalized) `tag` calls for on the
    /// reported host element.
    ///
    /// An implementation must leave every component handle valid (the
    /// registry only grows) and must not replace the factory.
    fn create(&self, cx: &mut CustomElements<C, B, Self>, tag: &str, element: Element)
        ensures
            grows_from(old(cx).arenas(), final(cx).arenas()),
            final(cx).spec_processor() == old(cx).spec_processor(),
    ;
}

impl<C, B, F> CustomElements<C, B, F> {
    /// The registry's contents: for each kind, the instances added under
    /// that kind, oldest first.
    pub closed spec fn arenas(self) -> Map<TypeKey, Seq<C>> {
        self.components.arenas()
    }

    /// The instances stored under `kind`, oldest first.
    pub open spec fn arena(self, kind: TypeKey) -> Seq<C> {
        arena_of(self.arenas(), kind)
    }

    /// The callback table's contents: a map from host-issued identifier to
    /// its registered entry.
    pub closed spec fn entries(self) -> Map<Callback, B> {
        self.callbacks.entries()
    }

    /// The factory installed at construction.
    pub closed spec fn spec_processor(self) -> F {
        self.processor
    }

    /// A controller with no components and no callbacks, holding the one
    /// factory it will ever dispatch through.
    pub fn new(processor: F) -> (c: Self)
        ensures
            forall|k: TypeKey| c.arena(k) == Seq::<C>::empty(),
            c.entries() == Map::<Callback, B>::empty(),
            c.spec_processor() == processor,
    {
        let c = CustomElements {
            components: Registry::new(),
            callbacks: CallbackTable::new(),
            processor,
        };
        proof {
            assert forall|k: TypeKey| c.arena(k) == Seq::<C>::empty() by {
                assert(c.components.arena(k) == Seq::<C>::empty());
            }
        }
        c
    }

    /// Appends `item` to the arena of `kind` and returns its stable
    /// handle; callbacks and factory are untouched.
    pub fn add(&mut self, kind: TypeKey, item: C) -> (handle: CustomElement)
        ensures
            final(self).arenas() == add_step(old(self).arenas(), kind, item),
            handle == old(self).arena(kind).len(),
            final(self).arena(kind) == old(self).arena(kind).push(item),
            forall|k: TypeKey| k != kind ==> final(self).arena(k) == old(self).arena(k),
            final(self).entries() == old(self).entries(),
            final(self).spec_processor() == old(self).spec_processor(),
    {
        self.components.add(kind, item)
    }

    /// A read reference to the instance `handle` was issued for under
    /// `kind`. A handle of the wrong kind or out of range can only arise
    /// from an internal bookkeeping bug, so it is excluded outright.
    pub fn get(&self, kind: TypeKey, handle: CustomElement) -> (instance: &C)
        requires
            handle < self.arena(kind).len(),
        ensures
            *instance == self.arena(kind)[handle as int],
    {
        self.components.get(kind, handle)
    }

    /// How many instances the arena of `kind` holds.
    pub fn count(&self, kind: TypeKey) -> (n: usize)
        ensures
            n == self.arena(kind).len(),
    {
        self.components.count(kind)
    }

    /// Registers `f` under the host-issued identifier `c`, overwriting any
    /// earlier entry; components and factory are untouched.
    pub fn add_callback(&mut self, c: Callback, f: B)
        ensures
            final(self).entries() == old(self).entries().insert(c, f),
            final(self).arenas() == old(self).arenas(),
            final(self).spec_processor() == old(self).spec_processor(),
    {
        self.callbacks.register(c, f)
    }

    /// A read reference to the entry registered for `id`, if any.
    pub fn get_callback(&self, id: Callback) -> (r: Option<&B>)
        ensures
            match r {
                Some(b) => self.entries().dom().contains(id) && *b == self.entries()[id],
                None => !self.entries().dom().contains(id),
            },
    {
        self.callbacks.get(id)
    }
}

impl<C, B: Behavior<C, F>, F> CustomElements<C, B, F> {
    /// The sole routing entry point: removes the entry registered for
    /// `callback_id`, invokes it with the event, and reinserts the
    /// (possibly self-updated) entry, so one firing never consumes the
    /// registration. While the entry runs, `callback_id` is absent from
    /// the table, which is what makes recursive routing safe.
    ///
    /// Fails closed: an identifier with no entry reports `UnknownCallback`
    /// and nothing is invoked or changed.
    pub fn route_callback(&mut self, callback_id: Callback, event: i32) -> (r: Result<
        (),
        RoutingError,
    >)
        ensures
            r is Ok <==> old(self).entries().dom().contains(callback_id),
            r is Ok ==> final(self).entries().dom().contains(callback_id),
            r is Err ==> {
                &&& r == Err::<(), RoutingError>(RoutingError::UnknownCallback)
                &&& final(self).entries() == old(self).entries()
                &&& final(self).arenas() == old(self).arenas()
            },
            grows_from(old(self).arenas(), final(self).arenas()),
            final(self).spec_processor() == old(self).spec_processor(),
    {
        let mut behavior = match self.callbacks.take(callback_id) {
            Ok(b) => b,
            Err(e) => {
                proof {
                    lemma_grows_refl(old(self).arenas());
                }
                return Err(e);
            },
        };
        behavior.on_event(self, callback_id, event);
        self.callbacks.register(callback_id, behavior);
        Ok(())
    }
}

impl<C, B, F: Factory<C, B> + Copy> CustomElements<C, B, F> {
    /// Internal factory invocation: the host has reported a newly created
    /// element of the given tag. The tag is case-normalized and handed,
    /// with the element, to the one installed factory, which decides
    /// whether it is recognized and what to construct.
    pub fn on_element_created(&mut self, tag: &str, element: Element)
        ensures
            grows_from(old(self).arenas(), final(self).arenas()),
            final(self).spec_processor() == old(self).spec_processor(),
    {
        let normalized = lowercase(tag);
        let p = self.processor;
        p.create(self, normalized.as_str(), element);
    }
}

} // verus!
