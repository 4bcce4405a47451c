//! Laws that relate the operations of the library, stated over the runtime's
//! model and proved.
use vstd::prelude::*;
use crate::class::InterfaceClass;
use crate::reference::{resolution, resolve_effect, Realization};
use crate::runtime::{DeathRecipient, RuntimeModel};
use crate::status::StatusCode;

verus! {

/// Once an object carries a class, associating it with any class leaves that
/// class in place.
pub proof fn lemma_class_assignment_persists(m: RuntimeModel, id: nat, c: InterfaceClass)
    requires
        m.contains(id),
        m.object(id).class.is_some(),
    ensures
        m.associated(id, c) == m,
{
}

/// Resolving an object against a class a second time reaches it the same
/// way as the first time, and changes its class no further.
pub proof fn lemma_resolution_idempotent(m: RuntimeModel, id: nat, c: InterfaceClass)
    requires
        m.wf(),
        m.contains(id),
        m.defines(c),
    ensures
        resolution(resolve_effect(m, id, c), id, c) == resolution(m, id, c),
        resolve_effect(resolve_effect(m, id, c), id, c).object(id).class == resolve_effect(
            m,
            id,
            c,
        ).object(id).class,
{
    let n = resolve_effect(m, id, c);
    assert(n.object(id).local == m.object(id).local);
    if resolution(m, id, c).is_some() && m.object(id).class.is_none() {
        assert(n.object(id).class == Some(c));
    }
}

/// A local service created under class `c` is always resolved against `c`
/// to its own adapter, never to a proxy.
pub proof fn lemma_local_fidelity(m: RuntimeModel, id: nat, c: InterfaceClass)
    requires
        m.wf(),
        m.contains(id),
        m.object(id).local,
        m.object(id).class == Some(c),
    ensures
        resolution(m, id, c) == Some(Realization::LocalAdapter),
{
}

/// A remote object is never resolved to a local adapter; whenever its class
/// can be reconciled with `c`, it is reached through a proxy.
pub proof fn lemma_remote_fidelity(m: RuntimeModel, id: nat, c: InterfaceClass)
    requires
        m.wf(),
        m.contains(id),
        !m.object(id).local,
    ensures
        resolution(m, id, c) != Some(Realization::LocalAdapter),
        m.association_ok(id, c) ==> resolution(m, id, c) == Some(Realization::Proxy),
{
}

/// An object that carries a class `d` other than `c` but with `c`'s
/// descriptor is reached through a proxy when resolved against `c`, even
/// when it is local.
pub proof fn lemma_same_descriptor_is_remote(m: RuntimeModel, id: nat, c: InterfaceClass, d: InterfaceClass)
    requires
        m.contains(id),
        m.object(id).class == Some(d),
        d != c,
        m.descriptor(d) == m.descriptor(c),
    ensures
        resolution(m, id, c) == Some(Realization::Proxy),
{
}

/// Linking a death recipient to a local object is refused with
/// `InvalidOperation` and records nothing, and unlinking it afterwards
/// changes nothing.
pub proof fn lemma_local_death_link_rejected(m: RuntimeModel, id: nat, r: DeathRecipient)
    requires
        m.wf(),
        m.contains(id),
        m.object(id).local,
    ensures
        m.link_outcome(id) == Err::<(), StatusCode>(StatusCode::InvalidOperation),
        m.without_link(id, r) == m,
{
    let o = m.object(id);
    assert(m.object_wf(m.objects[id as int]));
    o.links.index_of_first_ensures(r);
    assert(o.links.remove_value(r) == o.links);
    assert(m.objects.update(id as int, o) =~= m.objects);
}

/// Giving up the last strong reference to a local service runs its destroy
/// callback; the service is then dead, cannot be promoted again, and no later
/// release runs the callback a second time.
pub proof fn lemma_destroy_runs_once(m: RuntimeModel, id: nat)
    requires
        m.wf(),
        m.contains(id),
        m.fires_destroy(id),
    ensures
        m.released(id).object(id).destroyed,
        !m.released(id).object(id).alive,
        !m.released(id).fires_destroy(id),
        m.released(id).released(id) == m.released(id),
        m.released(id).wf(),
{
    let n = m.released(id);
    assert(m.object_wf(m.objects[id as int]));
    assert forall|i: int| 0 <= i < n.objects.len() implies n.object_wf(#[trigger] n.objects[i]) by {
        if i != id {
            assert(m.object_wf(m.objects[i]));
        }
    }
}

} // verus!
