//! Owning and weak references to an interface, and the resolver that decides
//! whether a handle is served by a local service or through a proxy.
use vstd::prelude::*;
use crate::class::InterfaceClass;
use crate::runtime::{ObjectModel, Runtime, RuntimeModel, SpIBinder, WpIBinder};
use crate::status::{BinderResult, StatusCode};

verus! {

/// How an owning reference reaches its object.
#[derive(Debug, Clone, Copy, PartialEq, Eq, Structural)]
pub enum Realization {
    /// Directly, through the local service adapter of this process.
    LocalAdapter,
    /// Through transactions, by a proxy.
    Proxy,
}

/// What a reference is, seen as mathematics.
pub struct RefModel {
    /// The identity of the object it refers to.
    pub id: nat,
    /// The interface class it was made for.
    pub class: InterfaceClass,
    /// How it reaches the object.
    pub kind: Realization,
}

/// Whether object `id`, once associated with `c`, is a local service of
/// class `c`, so that it can be used directly.
pub open spec fn can_downcast(m: RuntimeModel, id: nat, c: InterfaceClass) -> bool {
    let o = m.associated(id, c).object(id);
    o.local && o.class == Some(c)
}

/// Whether object `id` already carries a class other than `c` with `c`'s
/// descriptor: it implements the interface, but under another identity.
pub open spec fn foreign_same_descriptor(m: RuntimeModel, id: nat, c: InterfaceClass) -> bool {
    let cls = m.object(id).class;
    cls.is_some() && cls.unwrap() != c && m.descriptor(cls.unwrap()) == m.descriptor(c)
}

/// How object `id` is reached when resolved against class `c`, or `None`
/// when its class cannot be reconciled with `c`.
pub open spec fn resolution(m: RuntimeModel, id: nat, c: InterfaceClass) -> Option<Realization> {
    if foreign_same_descriptor(m, id, c) {
        Some(Realization::Proxy)
    } else if !m.association_ok(id, c) {
        None
    } else if can_downcast(m, id, c) {
        Some(Realization::LocalAdapter)
    } else {
        Some(Realization::Proxy)
    }
}

/// The runtime after resolving one strong reference to object `id` against
/// class `c`: associated with `c` on success, the reference given up on
/// failure.
pub open spec fn resolve_effect(m: RuntimeModel, id: nat, c: InterfaceClass) -> RuntimeModel {
    if resolution(m, id, c).is_some() {
        m.associated(id, c)
    } else {
        m.released(id)
    }
}

/// The local service adapter of an object of this process: it binds the
/// object to the class under which it was created.
#[derive(Debug)]
pub struct LocalAdapter {
    binder: SpIBinder,
    class: InterfaceClass,
}

impl View for LocalAdapter {
    type V = RefModel;

    closed spec fn view(&self) -> RefModel {
        RefModel { id: self.binder@, class: self.class, kind: Realization::LocalAdapter }
    }
}

impl LocalAdapter {
    /// Creates a local service object of class `class` and its adapter.
    pub fn new(rt: &mut Runtime, class: InterfaceClass) -> (r: LocalAdapter)
        requires
            old(rt).wf(),
            old(rt)@.defines(class),
            old(rt)@.objects.len() < usize::MAX,
        ensures
            final(rt).wf(),
            r@.id == old(rt)@.objects.len(),
            r@.class == class,
            r@.kind == Realization::LocalAdapter,
            final(rt)@ == old(rt)@.with_new_object(
                ObjectModel {
                    local: true,
                    alive: true,
                    class: Some(class),
                    strong: 1,
                    weak: 0,
                    destroyed: false,
                    links: Seq::empty(),
                },
            ),
    {
        let binder = rt.new_local(class);
        LocalAdapter { binder, class }
    }

    /// The adapter of `binder` as a local service of class `class`, if it is
    /// one; the handle back otherwise.
    pub fn try_from_binder(rt: &Runtime, binder: SpIBinder, class: InterfaceClass) -> (r:
        Result<LocalAdapter, SpIBinder>)
        requires
            rt.wf(),
            rt@.contains(binder@),
        ensures
            rt@.object(binder@).local && rt@.object(binder@).class == Some(class) ==> r is Ok
                && r->Ok_0@ == (RefModel {
                id: binder@,
                class,
                kind: Realization::LocalAdapter,
            }),
            !(rt@.object(binder@).local && rt@.object(binder@).class == Some(class)) ==> r is Err
                && r->Err_0@ == binder@,
    {
        if rt.is_local(&binder) {
            match rt.get_class(&binder) {
                Some(c) => {
                    if c == class {
                        return Ok(LocalAdapter { binder, class });
                    }
                },
                None => {},
            }
        }
        Err(binder)
    }
}

/// A proxy: it reaches its object through transactions only.
#[derive(Debug)]
pub struct Proxy {
    binder: SpIBinder,
    class: InterfaceClass,
}

impl View for Proxy {
    type V = RefModel;

    closed spec fn view(&self) -> RefModel {
        RefModel { id: self.binder@, class: self.class, kind: Realization::Proxy }
    }
}

impl Proxy {
    /// A proxy for interface class `class` over `binder`.
    pub fn from_binder(binder: SpIBinder, class: InterfaceClass) -> (r: Proxy)
        ensures
            r@ == (RefModel { id: binder@, class, kind: Realization::Proxy }),
    {
        Proxy { binder, class }
    }
}

/// What an owning reference holds: an adapter or a proxy.
#[derive(Debug)]
pub enum Capability {
    Local(LocalAdapter),
    Remote(Proxy),
}

impl View for Capability {
    type V = RefModel;

    open spec fn view(&self) -> RefModel {
        match self {
            Capability::Local(a) => a@,
            Capability::Remote(p) => p@,
        }
    }
}

/// An owning reference to an interface.
#[derive(Debug)]
pub struct Strong {
    value: Capability,
}

impl View for Strong {
    type V = RefModel;

    closed spec fn view(&self) -> RefModel {
        self.value@
    }
}

impl Strong {
    /// Wraps an adapter or a proxy.
    pub fn new(value: Capability) -> (r: Strong)
        ensures
            r@ == value@,
    {
        Strong { value }
    }

    /// The adapter or proxy held.
    pub fn as_ref(&self) -> (r: &Capability)
        ensures
            r@ == self@,
    {
        &self.value
    }

    fn binder(&self) -> (r: &SpIBinder)
        ensures
            r@ == self@.id,
    {
        match &self.value {
            Capability::Local(a) => &a.binder,
            Capability::Remote(p) => &p.binder,
        }
    }

    /// The identity of the object referred to.
    pub fn binder_id(&self) -> (r: usize)
        ensures
            r == self@.id,
    {
        self.binder().id()
    }

    /// The interface class this reference was made for.
    pub fn interface_class(&self) -> (r: InterfaceClass)
        ensures
            r == self@.class,
    {
        match &self.value {
            Capability::Local(a) => a.class,
            Capability::Remote(p) => p.class,
        }
    }

    /// Whether the object is used directly, through its local adapter.
    pub fn is_local(&self) -> (r: bool)
        ensures
            r == (self@.kind == Realization::LocalAdapter),
    {
        match &self.value {
            Capability::Local(_) => true,
            Capability::Remote(_) => false,
        }
    }

    /// Resolves `ibinder` against interface class `class`. A handle that
    /// already carries another class with the same descriptor is reached
    /// through a proxy. Otherwise the handle is associated with `class`,
    /// which fails with `BadType` when it carries a class of another
    /// descriptor; once associated, a local service of `class` is used
    /// directly and anything else through a proxy.
    pub fn try_from(rt: &mut Runtime, ibinder: SpIBinder, class: InterfaceClass) -> (r: BinderResult<Strong>)
        requires
            old(rt).wf(),
            old(rt)@.contains(ibinder@),
            old(rt)@.defines(class),
        ensures
            final(rt).wf(),
            final(rt)@ == resolve_effect(old(rt)@, ibinder@, class),
            match r {
                Ok(s) => resolution(old(rt)@, ibinder@, class) == Some(s@.kind) && s@.id == ibinder@
                    && s@.class == class,
                Err(e) => resolution(old(rt)@, ibinder@, class).is_none() && e == StatusCode::BadType,
            },
    {
        let existing = rt.get_class(&ibinder);
        match existing {
            Some(c) => {
                if c != class && rt.same_descriptor(c, class) {
                    return Ok(Strong::new(Capability::Remote(Proxy::from_binder(ibinder, class))));
                }
            },
            None => {},
        }
        if rt.associate_class(&ibinder, class) {
            match LocalAdapter::try_from_binder(rt, ibinder, class) {
                Ok(adapter) => Ok(Strong::new(Capability::Local(adapter))),
                Err(ibinder) => Ok(Strong::new(Capability::Remote(Proxy::from_binder(ibinder, class)))),
            }
        } else {
            rt.release(ibinder);
            Err(StatusCode::BadType)
        }
    }

    /// A new strong handle to the object referred to.
    pub fn as_binder(&self, rt: &mut Runtime) -> (r: SpIBinder)
        requires
            old(rt).wf(),
            old(rt)@.contains(self@.id),
            0 < old(rt)@.object(self@.id).strong < u64::MAX,
        ensures
            final(rt).wf(),
            r@ == self@.id,
            final(rt)@ == old(rt)@.with_strong_ref(self@.id),
    {
        rt.clone_binder(self.binder())
    }

    /// Another owning reference to the same object, made by resolving its
    /// handle again, so that it reflects the object's current class.
    pub fn clone(&self, rt: &mut Runtime) -> (r: BinderResult<Strong>)
        requires
            old(rt).wf(),
            old(rt)@.contains(self@.id),
            old(rt)@.defines(self@.class),
            0 < old(rt)@.object(self@.id).strong < u64::MAX,
        ensures
            final(rt).wf(),
            final(rt)@ == resolve_effect(old(rt)@.with_strong_ref(self@.id), self@.id, self@.class),
            match r {
                Ok(s) => resolution(old(rt)@, self@.id, self@.class) == Some(s@.kind) && s@.id
                    == self@.id && s@.class == self@.class,
                Err(e) => resolution(old(rt)@, self@.id, self@.class).is_none() && e
                    == StatusCode::BadType,
            },
    {
        let binder = self.as_binder(rt);
        let r = Strong::try_from(rt, binder, self.interface_class());
        proof {
            lemma_resolution_ignores_counts(old(rt)@, old(rt)@.with_strong_ref(self@.id), self@.id, self@.class);
        }
        r
    }

    /// A weak reference to the same object and interface.
    pub fn downgrade(this: &Strong, rt: &mut Runtime) -> (r: Weak)
        requires
            old(rt).wf(),
            old(rt)@.contains(this@.id),
            old(rt)@.object(this@.id).weak < u64::MAX,
        ensures
            final(rt).wf(),
            r@ == (WeakModel { id: this@.id, class: this@.class }),
            final(rt)@ == old(rt)@.with_weak_ref(this@.id),
    {
        Weak::new(this, rt)
    }

    /// Gives the reference up. Returns whether this ran the destroy callback
    /// of a local service, its last strong reference being gone.
    pub fn release(self, rt: &mut Runtime) -> (fired: bool)
        requires
            old(rt).wf(),
            old(rt)@.contains(self@.id),
        ensures
            final(rt).wf(),
            fired == old(rt)@.fires_destroy(self@.id),
            final(rt)@ == old(rt)@.released(self@.id),
    {
        let ghost id = self@.id;
        let binder = match self.value {
            Capability::Local(a) => a.binder,
            Capability::Remote(p) => p.binder,
        };
        assert(binder@ == id);
        rt.release(binder)
    }
}

/// Resolution reads the classes and the object's kind and class, never its
/// liveness, reference counts or links.
pub proof fn lemma_resolution_ignores_counts(m: RuntimeModel, n: RuntimeModel, id: nat, c: InterfaceClass)
    requires
        m.contains(id),
        n.classes == m.classes,
        n.objects.len() == m.objects.len(),
        n.object(id).local == m.object(id).local,
        n.object(id).class == m.object(id).class,
    ensures
        resolution(n, id, c) == resolution(m, id, c),
{
}

/// What a weak reference is, seen as mathematics.
pub struct WeakModel {
    /// The identity of the object it refers to.
    pub id: nat,
    /// The interface class it was made for.
    pub class: InterfaceClass,
}

/// A weak reference to an interface: it does not keep the object alive, and
/// yields an owning reference only while the object lives.
#[derive(Debug)]
pub struct Weak {
    weak_binder: WpIBinder,
    class: InterfaceClass,
}

impl View for Weak {
    type V = WeakModel;

    closed spec fn view(&self) -> WeakModel {
        WeakModel { id: self.weak_binder@, class: self.class }
    }
}

impl Weak {
    /// A weak reference to the object and interface of `binder`.
    pub fn new(binder: &Strong, rt: &mut Runtime) -> (r: Weak)
        requires
            old(rt).wf(),
            old(rt)@.contains(binder@.id),
            old(rt)@.object(binder@.id).weak < u64::MAX,
        ensures
            final(rt).wf(),
            r@ == (WeakModel { id: binder@.id, class: binder@.class }),
            final(rt)@ == old(rt)@.with_weak_ref(binder@.id),
    {
        let weak_binder = rt.downgrade(binder.binder());
        Weak { weak_binder, class: binder.interface_class() }
    }

    /// The identity of the object referred to.
    pub fn binder_id(&self) -> (r: usize)
        ensures
            r == self@.id,
    {
        self.weak_binder.id()
    }

    /// An owning reference to the object, resolved anew against this
    /// reference's interface; `DeadObject` once the object is gone.
    pub fn upgrade(&self, rt: &mut Runtime) -> (r: BinderResult<Strong>)
        requires
            old(rt).wf(),
            old(rt)@.contains(self@.id),
            old(rt)@.defines(self@.class),
            old(rt)@.object(self@.id).strong < u64::MAX,
        ensures
            final(rt).wf(),
            !old(rt)@.object(self@.id).alive ==> r == Err::<Strong, StatusCode>(StatusCode::DeadObject)
                && final(rt)@ == old(rt)@,
            old(rt)@.object(self@.id).alive ==> final(rt)@ == resolve_effect(
                old(rt)@.with_strong_ref(self@.id),
                self@.id,
                self@.class,
            ) && match r {
                Ok(s) => resolution(old(rt)@, self@.id, self@.class) == Some(s@.kind) && s@.id
                    == self@.id && s@.class == self@.class,
                Err(e) => resolution(old(rt)@, self@.id, self@.class).is_none() && e
                    == StatusCode::BadType,
            },
    {
        match rt.promote(&self.weak_binder) {
            None => Err(StatusCode::DeadObject),
            Some(binder) => {
                let r = Strong::try_from(rt, binder, self.class);
                proof {
                    lemma_resolution_ignores_counts(
                        old(rt)@,
                        old(rt)@.with_strong_ref(self@.id),
                        self@.id,
                        self@.class,
                    );
                }
                r
            },
        }
    }

    /// Another weak reference to the same object and interface.
    pub fn clone(&self, rt: &mut Runtime) -> (r: Weak)
        requires
            old(rt).wf(),
            old(rt)@.contains(self@.id),
            old(rt)@.object(self@.id).weak < u64::MAX,
        ensures
            final(rt).wf(),
            r@ == self@,
            final(rt)@ == old(rt)@.with_weak_ref(self@.id),
    {
        Weak { weak_binder: rt.clone_weak(&self.weak_binder), class: self.class }
    }

    /// Gives the reference up.
    pub fn release(self, rt: &mut Runtime)
        requires
            old(rt).wf(),
            old(rt)@.contains(self@.id),
        ensures
            final(rt).wf(),
            final(rt)@ == old(rt)@.weak_released(self@.id),
    {
        rt.release_weak(self.weak_binder)
    }
}

impl PartialEq for Strong {
    /// Two references are equal when they refer to the same object.
    fn eq(&self, other: &Strong) -> (r: bool) {
        self.binder_id() == other.binder_id()
    }
}

impl vstd::std_specs::cmp::PartialEqSpecImpl for Strong {
    open spec fn obeys_eq_spec() -> bool {
        true
    }

    open spec fn eq_spec(&self, other: &Strong) -> bool {
        self@.id == other@.id
    }
}

impl PartialEq for Weak {
    /// Two references are equal when they refer to the same object.
    fn eq(&self, other: &Weak) -> (r: bool) {
        self.binder_id() == other.binder_id()
    }
}

impl vstd::std_specs::cmp::PartialEqSpecImpl for Weak {
    open spec fn obeys_eq_spec() -> bool {
        true
    }

    open spec fn eq_spec(&self, other: &Weak) -> bool {
        self@.id == other@.id
    }
}

/// The order of two object identities.
pub open spec fn identity_order(a: nat, b: nat) -> core::cmp::Ordering {
    if a < b {
        core::cmp::Ordering::Less
    } else if a == b {
        core::cmp::Ordering::Equal
    } else {
        core::cmp::Ordering::Greater
    }
}

fn compare_ids(a: usize, b: usize) -> (r: core::cmp::Ordering)
    ensures
        r == identity_order(a as nat, b as nat),
{
    if a < b {
        core::cmp::Ordering::Less
    } else if a == b {
        core::cmp::Ordering::Equal
    } else {
        core::cmp::Ordering::Greater
    }
}

impl PartialOrd for Strong {
    /// References are ordered by the identities of their objects.
    fn partial_cmp(&self, other: &Strong) -> (r: Option<core::cmp::Ordering>) {
        Some(compare_ids(self.binder_id(), other.binder_id()))
    }
}

impl vstd::std_specs::cmp::PartialOrdSpecImpl for Strong {
    open spec fn obeys_partial_cmp_spec() -> bool {
        true
    }

    open spec fn partial_cmp_spec(&self, other: &Strong) -> Option<core::cmp::Ordering> {
        Some(identity_order(self@.id, other@.id))
    }
}

impl PartialOrd for Weak {
    /// References are ordered by the identities of their objects.
    fn partial_cmp(&self, other: &Weak) -> (r: Option<core::cmp::Ordering>) {
        Some(compare_ids(self.binder_id(), other.binder_id()))
    }
}

impl vstd::std_specs::cmp::PartialOrdSpecImpl for Weak {
    open spec fn obeys_partial_cmp_spec() -> bool {
        true
    }

    open spec fn partial_cmp_spec(&self, other: &Weak) -> Option<core::cmp::Ordering> {
        Some(identity_order(self@.id, other@.id))
    }
}

} // verus!
