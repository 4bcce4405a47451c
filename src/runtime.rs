//! One process's view of the IPC runtime: its classes and the objects it can
//! reach, with their liveness, reference counts, class slots and death links.
use vstd::prelude::*;
use crate::class::{ClassRegistry, InterfaceClass, RegistryModel};
use crate::status::{BinderResult, StatusCode};

verus! {

/// An owning handle to an object of a runtime: while it is held, the object
/// counts one more strong reference.
#[derive(Debug)]
pub struct SpIBinder {
    id: usize,
}

impl View for SpIBinder {
    type V = nat;

    /// The identity of the object the handle refers to.
    closed spec fn view(&self) -> nat {
        self.id as nat
    }
}

impl SpIBinder {
    /// The identity of the object the handle refers to.
    pub fn id(&self) -> (r: usize)
        ensures
            r == self@,
    {
        self.id
    }
}

/// A non-owning handle: it counts as a weak reference and can be promoted
/// while its object is alive.
#[derive(Debug)]
pub struct WpIBinder {
    id: usize,
}

impl View for WpIBinder {
    type V = nat;

    closed spec fn view(&self) -> nat {
        self.id as nat
    }
}

impl WpIBinder {
    /// The identity of the object the handle refers to.
    pub fn id(&self) -> (r: usize)
        ensures
            r == self@,
    {
        self.id
    }
}

/// A party that asks to be told when a remote object dies, named by a cookie
/// of its own choosing. A link holds only this name, never the party itself.
#[derive(Debug, Clone, Copy, PartialEq, Eq, Structural)]
pub struct DeathRecipient {
    cookie: u64,
}

impl View for DeathRecipient {
    type V = u64;

    closed spec fn view(&self) -> u64 {
        self.cookie
    }
}

impl DeathRecipient {
    /// The recipient named `cookie`.
    pub fn new(cookie: u64) -> (r: DeathRecipient)
        ensures
            r@ == cookie,
    {
        DeathRecipient { cookie }
    }

    /// The recipient's cookie.
    pub fn cookie(&self) -> (r: u64)
        ensures
            r == self@,
    {
        self.cookie
    }
}

/// What the runtime knows of one object.
pub struct ObjectModel {
    /// Implemented in this process (a local service), or in another one.
    pub local: bool,
    /// The target still exists.
    pub alive: bool,
    /// The class associated with the object; once set, it stays.
    pub class: Option<InterfaceClass>,
    /// Strong references held in this process.
    pub strong: nat,
    /// Weak references held in this process.
    pub weak: nat,
    /// The destroy callback of a local service has run.
    pub destroyed: bool,
    /// The recipients to notify when the object dies.
    pub links: Seq<DeathRecipient>,
}

/// A runtime seen as mathematics: its classes and its objects, an object's
/// identity being its position.
pub struct RuntimeModel {
    pub classes: RegistryModel,
    pub objects: Seq<ObjectModel>,
}

impl RuntimeModel {
    /// Whether object `id` exists in this runtime.
    pub open spec fn contains(self, id: nat) -> bool {
        id < self.objects.len()
    }

    /// Whether class `c` was defined in this runtime.
    pub open spec fn defines(self, c: InterfaceClass) -> bool {
        self.classes.defines(c)
    }

    /// The descriptor of class `c`.
    pub open spec fn descriptor(self, c: InterfaceClass) -> Seq<char> {
        self.classes.descriptors[c@ as int]
    }

    /// Object `id`.
    pub open spec fn object(self, id: nat) -> ObjectModel {
        self.objects[id as int]
    }

    /// What holds of every object: its class is defined; a local service has
    /// a class, no death link, and lives exactly while strong references to
    /// it remain, its destroy callback having run once it died; a remote
    /// object is never destroyed here, and loses its links when it dies.
    pub open spec fn object_wf(self, o: ObjectModel) -> bool {
        &&& o.class.is_some() ==> self.defines(o.class.unwrap())
        &&& o.local ==> o.class.is_some() && o.links.len() == 0 && (o.alive <==> o.strong > 0) && (
        o.destroyed <==> !o.alive)
        &&& !o.local ==> !o.destroyed
        &&& !o.alive ==> o.links.len() == 0
        &&& o.links.no_duplicates()
    }

    pub open spec fn wf(self) -> bool {
        &&& self.classes.wf()
        &&& forall|i: int| 0 <= i < self.objects.len() ==> self.object_wf(#[trigger] self.objects[i])
    }

    /// The runtime with object `id` replaced by `o`.
    pub open spec fn with_object(self, id: nat, o: ObjectModel) -> RuntimeModel {
        RuntimeModel { classes: self.classes, objects: self.objects.update(id as int, o) }
    }

    /// The runtime with one more object, `o`.
    pub open spec fn with_new_object(self, o: ObjectModel) -> RuntimeModel {
        RuntimeModel { classes: self.classes, objects: self.objects.push(o) }
    }

    /// Whether object `id` may be associated with class `c`: it has no class
    /// yet, or `c`, or one that carries the same descriptor.
    pub open spec fn association_ok(self, id: nat, c: InterfaceClass) -> bool {
        match self.object(id).class {
            None => true,
            Some(d) => d == c || self.descriptor(d) == self.descriptor(c),
        }
    }

    /// The runtime after associating object `id` with class `c`: the slot is
    /// filled if it was empty, and left as it was otherwise.
    pub open spec fn associated(self, id: nat, c: InterfaceClass) -> RuntimeModel {
        let o = self.object(id);
        if o.class.is_none() {
            self.with_object(id, ObjectModel { class: Some(c), ..o })
        } else {
            self
        }
    }

    /// The runtime with one more strong reference to object `id`.
    pub open spec fn with_strong_ref(self, id: nat) -> RuntimeModel {
        let o = self.object(id);
        self.with_object(id, ObjectModel { strong: o.strong + 1, ..o })
    }

    /// The runtime with one more weak reference to object `id`.
    pub open spec fn with_weak_ref(self, id: nat) -> RuntimeModel {
        let o = self.object(id);
        self.with_object(id, ObjectModel { weak: o.weak + 1, ..o })
    }

    /// Whether giving up a strong reference to object `id` runs the destroy
    /// callback: the object is a local service and this is its last one.
    pub open spec fn fires_destroy(self, id: nat) -> bool {
        self.object(id).local && self.object(id).strong == 1
    }

    /// The runtime after a strong reference to object `id` is given up; a
    /// local service whose last strong reference goes dies and is destroyed.
    pub open spec fn released(self, id: nat) -> RuntimeModel {
        let o = self.object(id);
        if o.strong == 0 {
            self
        } else if self.fires_destroy(id) {
            self.with_object(id, ObjectModel { strong: 0, alive: false, destroyed: true, ..o })
        } else {
            self.with_object(id, ObjectModel { strong: (o.strong - 1) as nat, ..o })
        }
    }

    /// The runtime after a weak reference to object `id` is given up.
    pub open spec fn weak_released(self, id: nat) -> RuntimeModel {
        let o = self.object(id);
        if o.weak == 0 {
            self
        } else {
            self.with_object(id, ObjectModel { weak: (o.weak - 1) as nat, ..o })
        }
    }

    /// What linking a death recipient to object `id` returns: local objects
    /// cannot die apart from this process, and a dead one cannot be linked.
    pub open spec fn link_outcome(self, id: nat) -> BinderResult<()> {
        if self.object(id).local {
            Err(StatusCode::InvalidOperation)
        } else if !self.object(id).alive {
            Err(StatusCode::DeadObject)
        } else {
            Ok(())
        }
    }

    /// The runtime with `r` linked to object `id`, at most once.
    pub open spec fn with_link(self, id: nat, r: DeathRecipient) -> RuntimeModel {
        let o = self.object(id);
        if o.links.contains(r) {
            self
        } else {
            self.with_object(id, ObjectModel { links: o.links.push(r), ..o })
        }
    }

    /// The runtime with any link of `r` to object `id` removed.
    pub open spec fn without_link(self, id: nat, r: DeathRecipient) -> RuntimeModel {
        let o = self.object(id);
        self.with_object(id, ObjectModel { links: o.links.remove_value(r), ..o })
    }

    /// Whether the death of object `id` is news: it is remote and was alive.
    pub open spec fn dies_now(self, id: nat) -> bool {
        !self.object(id).local && self.object(id).alive
    }

    /// The runtime after the process behind object `id` went away.
    pub open spec fn after_death(self, id: nat) -> RuntimeModel {
        let o = self.object(id);
        if self.dies_now(id) {
            self.with_object(id, ObjectModel { alive: false, links: Seq::empty(), ..o })
        } else {
            self
        }
    }
}

/// Replacing one object by a well-formed one keeps a runtime well formed.
proof fn lemma_with_object_wf(m: RuntimeModel, id: nat, o: ObjectModel)
    requires
        m.wf(),
        m.contains(id),
        m.object_wf(o),
    ensures
        m.with_object(id, o).wf(),
{
    let n = m.with_object(id, o);
    assert forall|i: int| 0 <= i < n.objects.len() implies n.object_wf(#[trigger] n.objects[i]) by {
        if i != id {
            assert(m.object_wf(m.objects[i]));
        }
    }
}

/// Pushing a value not yet present keeps a sequence free of duplicates.
proof fn lemma_push_no_duplicates(s: Seq<DeathRecipient>, x: DeathRecipient)
    requires
        s.no_duplicates(),
        !s.contains(x),
    ensures
        s.push(x).no_duplicates(),
{
    let t = s.push(x);
    assert forall|i: int, j: int| 0 <= i < t.len() && 0 <= j < t.len() && i != j implies t[i] != t[j] by {
        if i == s.len() {
            assert(s[j] == t[j]);
        } else if j == s.len() {
            assert(s[i] == t[i]);
        }
    }
}

/// Removing the element at `i` keeps a sequence free of duplicates.
proof fn lemma_remove_no_duplicates(s: Seq<DeathRecipient>, i: int)
    requires
        s.no_duplicates(),
        0 <= i < s.len(),
    ensures
        s.remove(i).no_duplicates(),
{
    let t = s.remove(i);
    s.remove_ensures(i);
    assert forall|a: int, b: int| 0 <= a < t.len() && 0 <= b < t.len() && a != b implies t[a] != t[b] by {
        let a0 = if a < i { a } else { a + 1 };
        let b0 = if b < i { b } else { b + 1 };
        assert(t[a] == s[a0]);
        assert(t[b] == s[b0]);
    }
}

/// The part of an object's record that is plain data.
#[derive(Clone, Copy)]
struct ObjectState {
    local: bool,
    alive: bool,
    class: Option<InterfaceClass>,
    strong: u64,
    weak: u64,
    destroyed: bool,
}

spec fn object_model(s: ObjectState, links: Seq<DeathRecipient>) -> ObjectModel {
    ObjectModel {
        local: s.local,
        alive: s.alive,
        class: s.class,
        strong: s.strong as nat,
        weak: s.weak as nat,
        destroyed: s.destroyed,
        links,
    }
}

/// The runtime of one process.
pub struct Runtime {
    classes: ClassRegistry,
    states: Vec<ObjectState>,
    links: Vec<Vec<DeathRecipient>>,
}

impl View for Runtime {
    type V = RuntimeModel;

    closed spec fn view(&self) -> RuntimeModel {
        RuntimeModel {
            classes: self.classes@,
            objects: Seq::new(
                self.states@.len(),
                |i: int| object_model(self.states@[i], self.links@[i]@),
            ),
        }
    }
}

impl InterfaceClass {
    /// Defines a class with descriptor `descriptor` in `rt`. Each call
    /// defines a new class, distinct from every other one, even from one
    /// with the same descriptor.
    pub fn new(rt: &mut Runtime, descriptor: &str) -> (r: InterfaceClass)
        requires
            old(rt).wf(),
            old(rt)@.classes.descriptors.len() < usize::MAX,
        ensures
            final(rt).wf(),
            r@ == old(rt)@.classes.descriptors.len(),
            final(rt)@ == (RuntimeModel { classes: old(rt)@.classes.with_class(descriptor@), ..old(rt)@ }),
    {
        let r = rt.classes.define(descriptor);
        proof {
            assert(rt@.objects =~= old(rt)@.objects);
            assert forall|i: int| 0 <= i < rt@.objects.len() implies rt@.object_wf(#[trigger] rt@.objects[i]) by {
                assert(old(rt)@.object_wf(old(rt)@.objects[i]));
            }
        }
        r
    }

    /// The descriptor of this class.
    pub fn get_descriptor(&self, rt: &Runtime) -> (r: String)
        requires
            rt.wf(),
            rt@.defines(*self),
        ensures
            r@ == rt@.descriptor(*self),
    {
        rt.classes.descriptor(*self)
    }
}

impl Runtime {
    /// The runtime's vectors agree, and its model is well formed.
    pub closed spec fn wf(&self) -> bool {
        &&& self.classes.wf()
        &&& self.states@.len() == self.links@.len()
        &&& self@.wf()
    }

    /// A runtime with no class and no object.
    pub fn new() -> (r: Runtime)
        ensures
            r.wf(),
            r@.classes.descriptors == Seq::<Seq<char>>::empty(),
            r@.classes.cache == Map::<u64, InterfaceClass>::empty(),
            r@.objects == Seq::<ObjectModel>::empty(),
    {
        let r = Runtime { classes: ClassRegistry::new(), states: Vec::new(), links: Vec::new() };
        assert(r@.objects =~= Seq::<ObjectModel>::empty());
        r
    }

    /// Replaces the plain data of object `id`, keeping its links.
    fn set_state(&mut self, id: usize, st: ObjectState)
        requires
            old(self).classes.wf(),
            old(self).states@.len() == old(self).links@.len(),
            id < old(self).states@.len(),
        ensures
            final(self).classes == old(self).classes,
            final(self).states@.len() == final(self).links@.len(),
            final(self).links == old(self).links,
            final(self).states@ == old(self).states@.update(id as int, st),
            final(self)@ == old(self)@.with_object(id as nat, object_model(st, old(self).links@[id as int]@)),
    {
        self.states.set(id, st);
        assert(self@.objects =~= old(self)@.objects.update(
            id as int,
            object_model(st, old(self).links@[id as int]@),
        ));
    }

    /// Adds an object and hands out the first strong reference to it.
    fn add_object(&mut self, st: ObjectState) -> (r: SpIBinder)
        requires
            old(self).classes.wf(),
            old(self).states@.len() == old(self).links@.len(),
            old(self)@.objects.len() < usize::MAX,
        ensures
            final(self).classes == old(self).classes,
            final(self).states@.len() == final(self).links@.len(),
            r@ == old(self)@.objects.len(),
            final(self)@ == old(self)@.with_new_object(object_model(st, Seq::empty())),
    {
        let id = self.states.len();
        self.states.push(st);
        self.links.push(Vec::new());
        assert(self@.objects =~= old(self)@.objects.push(object_model(st, Seq::empty())));
        SpIBinder { id }
    }

    /// The class of interface type `key`: the one defined at its first use,
    /// defined now with `descriptor` if this is the first use.
    pub fn class_for(&mut self, key: u64, descriptor: &str) -> (r: InterfaceClass)
        requires
            old(self).wf(),
            old(self)@.classes.descriptors.len() < usize::MAX,
        ensures
            final(self).wf(),
            final(self)@.defines(r),
            final(self)@.objects == old(self)@.objects,
            final(self)@.classes.cache.contains_key(key),
            final(self)@.classes.cache[key] == r,
            old(self)@.classes.cache.contains_key(key) ==> final(self)@ == old(self)@ && r == old(
                self,
            )@.classes.cache[key],
            !old(self)@.classes.cache.contains_key(key) ==> r@ == old(self)@.classes.descriptors.len()
                && final(self)@.classes.descriptors == old(self)@.classes.descriptors.push(descriptor@)
                && final(self)@.classes.cache == old(self)@.classes.cache.insert(key, r),
    {
        let r = self.classes.class_for(key, descriptor);
        proof {
            assert(self@.objects =~= old(self)@.objects);
            assert forall|i: int| 0 <= i < self@.objects.len() implies self@.object_wf(#[trigger] self@.objects[i]) by {
                assert(old(self)@.object_wf(old(self)@.objects[i]));
            }
        }
        r
    }

    /// Whether classes `a` and `b` carry the same descriptor.
    pub fn same_descriptor(&self, a: InterfaceClass, b: InterfaceClass) -> (r: bool)
        requires
            self.wf(),
            self@.defines(a),
            self@.defines(b),
        ensures
            r == (self@.descriptor(a) == self@.descriptor(b)),
    {
        self.classes.same_descriptor(a, b)
    }

    /// Creates a local service object of class `c`: this is where its create
    /// callback runs. The object starts with one strong reference, returned.
    pub fn new_local(&mut self, c: InterfaceClass) -> (r: SpIBinder)
        requires
            old(self).wf(),
            old(self)@.defines(c),
            old(self)@.objects.len() < usize::MAX,
        ensures
            final(self).wf(),
            r@ == old(self)@.objects.len(),
            final(self)@ == old(self)@.with_new_object(
                ObjectModel {
                    local: true,
                    alive: true,
                    class: Some(c),
                    strong: 1,
                    weak: 0,
                    destroyed: false,
                    links: Seq::empty(),
                },
            ),
    {
        let st = ObjectState {
            local: true,
            alive: true,
            class: Some(c),
            strong: 1,
            weak: 0,
            destroyed: false,
        };
        let r = self.add_object(st);
        proof {
            let m = self@;
            assert forall|i: int| 0 <= i < m.objects.len() implies m.object_wf(#[trigger] m.objects[i]) by {
                if i < old(self)@.objects.len() {
                    assert(old(self)@.object_wf(old(self)@.objects[i]));
                }
            }
        }
        r
    }

    /// Takes in a handle to a remote object that this process has not seen
    /// before. It starts alive, with no class and one strong reference.
    pub fn new_remote(&mut self) -> (r: SpIBinder)
        requires
            old(self).wf(),
            old(self)@.objects.len() < usize::MAX,
        ensures
            final(self).wf(),
            r@ == old(self)@.objects.len(),
            final(self)@ == old(self)@.with_new_object(
                ObjectModel {
                    local: false,
                    alive: true,
                    class: None,
                    strong: 1,
                    weak: 0,
                    destroyed: false,
                    links: Seq::empty(),
                },
            ),
    {
        let st = ObjectState {
            local: false,
            alive: true,
            class: None,
            strong: 1,
            weak: 0,
            destroyed: false,
        };
        let r = self.add_object(st);
        proof {
            let m = self@;
            assert forall|i: int| 0 <= i < m.objects.len() implies m.object_wf(#[trigger] m.objects[i]) by {
                if i < old(self)@.objects.len() {
                    assert(old(self)@.object_wf(old(self)@.objects[i]));
                }
            }
        }
        r
    }
    /// Whether object `binder` still exists.
    pub fn is_alive(&self, binder: &SpIBinder) -> (r: bool)
        requires
            self.wf(),
            self@.contains(binder@),
        ensures
            r == self@.object(binder@).alive,
    {
        self.states[binder.id].alive
    }

    /// Whether object `binder` is a local service of this process.
    pub fn is_local(&self, binder: &SpIBinder) -> (r: bool)
        requires
            self.wf(),
            self@.contains(binder@),
        ensures
            r == self@.object(binder@).local,
    {
        self.states[binder.id].local
    }

    /// The class associated with object `binder`, if any.
    pub fn get_class(&self, binder: &SpIBinder) -> (r: Option<InterfaceClass>)
        requires
            self.wf(),
            self@.contains(binder@),
        ensures
            r == self@.object(binder@).class,
            r.is_some() ==> self@.defines(r.unwrap()),
    {
        proof {
            assert(self@.object_wf(self@.objects[binder@ as int]));
        }
        self.states[binder.id].class
    }

    /// Associates object `binder` with class `c`, unless it already carries a
    /// class of another identity and another descriptor. Returns whether the
    /// association holds.
    pub fn associate_class(&mut self, binder: &SpIBinder, c: InterfaceClass) -> (r: bool)
        requires
            old(self).wf(),
            old(self)@.contains(binder@),
            old(self)@.defines(c),
        ensures
            final(self).wf(),
            r == old(self)@.association_ok(binder@, c),
            final(self)@ == (if r { old(self)@.associated(binder@, c) } else { old(self)@ }),
    {
        let id = binder.id;
        let st = self.states[id];
        match st.class {
            None => {
                self.set_state(id, ObjectState { class: Some(c), ..st });
                proof {
                    assert(old(self)@.object_wf(old(self)@.objects[id as int]));
                    lemma_with_object_wf(old(self)@, id as nat, self@.object(id as nat));
                }
                true
            },
            Some(d) => {
                if d == c {
                    true
                } else {
                    self.classes.same_descriptor(d, c)
                }
            },
        }
    }

    /// Hands out one more strong reference to object `binder`.
    pub fn clone_binder(&mut self, binder: &SpIBinder) -> (r: SpIBinder)
        requires
            old(self).wf(),
            old(self)@.contains(binder@),
            0 < old(self)@.object(binder@).strong < u64::MAX,
        ensures
            final(self).wf(),
            r@ == binder@,
            final(self)@ == old(self)@.with_strong_ref(binder@),
    {
        let id = binder.id;
        let st = self.states[id];
        self.set_state(id, ObjectState { strong: st.strong + 1, ..st });
        proof {
            assert(old(self)@.object_wf(old(self)@.objects[id as int]));
            lemma_with_object_wf(old(self)@, id as nat, self@.object(id as nat));
        }
        SpIBinder { id }
    }

    /// Gives up a strong reference. When it was the last one to a local
    /// service, the service dies and its destroy callback runs: the result
    /// says whether it did.
    pub fn release(&mut self, binder: SpIBinder) -> (fired: bool)
        requires
            old(self).wf(),
            old(self)@.contains(binder@),
        ensures
            final(self).wf(),
            fired == old(self)@.fires_destroy(binder@),
            final(self)@ == old(self)@.released(binder@),
    {
        let id = binder.id;
        let st = self.states[id];
        if st.strong == 0 {
            false
        } else if st.local && st.strong == 1 {
            self.set_state(id, ObjectState { strong: 0, alive: false, destroyed: true, ..st });
            proof {
                assert(old(self)@.object_wf(old(self)@.objects[id as int]));
                lemma_with_object_wf(old(self)@, id as nat, self@.object(id as nat));
            }
            true
        } else {
            self.set_state(id, ObjectState { strong: st.strong - 1, ..st });
            proof {
                assert(old(self)@.object_wf(old(self)@.objects[id as int]));
                lemma_with_object_wf(old(self)@, id as nat, self@.object(id as nat));
            }
            false
        }
    }

    /// Hands out a weak reference to object `binder`.
    pub fn downgrade(&mut self, binder: &SpIBinder) -> (r: WpIBinder)
        requires
            old(self).wf(),
            old(self)@.contains(binder@),
            old(self)@.object(binder@).weak < u64::MAX,
        ensures
            final(self).wf(),
            r@ == binder@,
            final(self)@ == old(self)@.with_weak_ref(binder@),
    {
        self.add_weak(binder.id)
    }

    /// Hands out one more weak reference to object `weak`.
    pub fn clone_weak(&mut self, weak: &WpIBinder) -> (r: WpIBinder)
        requires
            old(self).wf(),
            old(self)@.contains(weak@),
            old(self)@.object(weak@).weak < u64::MAX,
        ensures
            final(self).wf(),
            r@ == weak@,
            final(self)@ == old(self)@.with_weak_ref(weak@),
    {
        self.add_weak(weak.id)
    }

    fn add_weak(&mut self, id: usize) -> (r: WpIBinder)
        requires
            old(self).wf(),
            old(self)@.contains(id as nat),
            old(self)@.object(id as nat).weak < u64::MAX,
        ensures
            final(self).wf(),
            r@ == id,
            final(self)@ == old(self)@.with_weak_ref(id as nat),
    {
        let st = self.states[id];
        self.set_state(id, ObjectState { weak: st.weak + 1, ..st });
        proof {
            assert(old(self)@.object_wf(old(self)@.objects[id as int]));
            lemma_with_object_wf(old(self)@, id as nat, self@.object(id as nat));
        }
        WpIBinder { id }
    }

    /// Gives up a weak reference.
    pub fn release_weak(&mut self, weak: WpIBinder)
        requires
            old(self).wf(),
            old(self)@.contains(weak@),
        ensures
            final(self).wf(),
            final(self)@ == old(self)@.weak_released(weak@),
    {
        let id = weak.id;
        let st = self.states[id];
        if st.weak > 0 {
            self.set_state(id, ObjectState { weak: st.weak - 1, ..st });
            proof {
                assert(old(self)@.object_wf(old(self)@.objects[id as int]));
                lemma_with_object_wf(old(self)@, id as nat, self@.object(id as nat));
            }
        }
    }

    /// Turns a weak reference into a strong one while the object is alive;
    /// `None` once it is gone.
    pub fn promote(&mut self, weak: &WpIBinder) -> (r: Option<SpIBinder>)
        requires
            old(self).wf(),
            old(self)@.contains(weak@),
            old(self)@.object(weak@).strong < u64::MAX,
        ensures
            final(self).wf(),
            old(self)@.object(weak@).alive ==> r.is_some() && r.unwrap()@ == weak@
                && final(self)@ == old(self)@.with_strong_ref(weak@),
            !old(self)@.object(weak@).alive ==> r.is_none() && final(self)@ == old(self)@,
    {
        let id = weak.id;
        let st = self.states[id];
        if st.alive {
            self.set_state(id, ObjectState { strong: st.strong + 1, ..st });
            proof {
                assert(old(self)@.object_wf(old(self)@.objects[id as int]));
                lemma_with_object_wf(old(self)@, id as nat, self@.object(id as nat));
            }
            Some(SpIBinder { id })
        } else {
            None
        }
    }
    /// Where `r` stands among the links of object `id`, if it does.
    fn find_link(&self, id: usize, r: DeathRecipient) -> (pos: Option<usize>)
        requires
            self.wf(),
            self@.contains(id as nat),
        ensures
            pos.is_none() ==> !self@.object(id as nat).links.contains(r),
            pos.is_some() ==> self@.object(id as nat).links.index_of_first(r) == Some(
                pos.unwrap() as int,
            ),
    {
        let links = &self.links[id];
        let ghost s = self@.object(id as nat).links;
        assert(s == links@);
        let mut i: usize = 0;
        while i < links.len()
            invariant
                s == links@,
                s == self@.object(id as nat).links,
                i <= s.len(),
                forall|j: int| 0 <= j < i ==> s[j] != r,
            decreases s.len() - i,
        {
            if links[i] == r {
                proof {
                    assert(s[i as int] == r);
                    assert(s.contains(r));
                    s.index_of_first_ensures(r);
                    match s.index_of_first(r) {
                        Some(k) => {
                            assert(!(k < i));
                            assert(!(k > i));
                            assert(k == i as int);
                        },
                        None => {},
                    }
                }
                return Some(i);
            }
            i = i + 1;
        }
        proof {
            s.index_of_first_ensures(r);
            if s.contains(r) {
                let k = choose|k: int| 0 <= k < s.len() && s[k] == r;
                assert(s[k] != r);
            }
        }
        None
    }
}

impl SpIBinder {
    /// Whether the object is still alive.
    pub fn is_binder_alive(&self, rt: &Runtime) -> (r: bool)
        requires
            rt.wf(),
            rt@.contains(self@),
        ensures
            r == rt@.object(self@).alive,
    {
        rt.is_alive(self)
    }

    /// Checks that the object still answers: `DeadObject` once it is gone.
    pub fn ping_binder(&self, rt: &Runtime) -> (r: BinderResult<()>)
        requires
            rt.wf(),
            rt@.contains(self@),
        ensures
            r == (if rt@.object(self@).alive { Ok::<(), StatusCode>(()) } else { Err(StatusCode::DeadObject) }),
    {
        if rt.is_alive(self) {
            Ok(())
        } else {
            Err(StatusCode::DeadObject)
        }
    }

    /// Asks that `recipient` be told when this object dies. Only a live remote
    /// object can be linked: a local one gives `InvalidOperation`, a dead one
    /// `DeadObject`, and neither records anything. A recipient already linked
    /// stays linked once.
    pub fn link_to_death(&self, rt: &mut Runtime, recipient: &DeathRecipient) -> (r: BinderResult<()>)
        requires
            old(rt).wf(),
            old(rt)@.contains(self@),
        ensures
            final(rt).wf(),
            r == old(rt)@.link_outcome(self@),
            final(rt)@ == (if r is Ok { old(rt)@.with_link(self@, *recipient) } else { old(rt)@ }),
    {
        let id = self.id;
        let st = rt.states[id];
        if st.local {
            return Err(StatusCode::InvalidOperation);
        }
        if !st.alive {
            return Err(StatusCode::DeadObject);
        }
        match rt.find_link(id, *recipient) {
            Some(_) => {
                proof {
                    old(rt)@.object(self@).links.index_of_first_ensures(*recipient);
                }
                Ok(())
            },
            None => {
                let ghost before = rt.links@[id as int]@;
                let mut list = Vec::new();
                rt.links.set_and_swap(id, &mut list);
                list.push(*recipient);
                rt.links.set_and_swap(id, &mut list);
                proof {
                    let m = old(rt)@;
                    let o = m.object(id as nat);
                    assert(o.links == before);
                    assert(m.object_wf(m.objects[id as int]));
                    lemma_push_no_duplicates(o.links, *recipient);
                    let o2 = ObjectModel { links: o.links.push(*recipient), ..o };
                    assert(rt@.objects =~= m.objects.update(id as int, o2));
                    lemma_with_object_wf(m, id as nat, o2);
                }
                Ok(())
            },
        }
    }

    /// Removes any link of `recipient` to this object. Removing a link that
    /// does not exist changes nothing and is no error.
    pub fn unlink_to_death(&self, rt: &mut Runtime, recipient: &DeathRecipient) -> (r: BinderResult<()>)
        requires
            old(rt).wf(),
            old(rt)@.contains(self@),
        ensures
            final(rt).wf(),
            r is Ok,
            final(rt)@ == old(rt)@.without_link(self@, *recipient),
    {
        let id = self.id;
        match rt.find_link(id, *recipient) {
            None => {
                proof {
                    let m = old(rt)@;
                    let o = m.object(id as nat);
                    o.links.index_of_first_ensures(*recipient);
                    assert(o.links.remove_value(*recipient) == o.links);
                    assert(m.objects.update(id as int, o) =~= m.objects);
                }
                Ok(())
            },
            Some(pos) => {
                proof {
                    old(rt)@.object(id as nat).links.index_of_first_ensures(*recipient);
                }
                let mut list = Vec::new();
                rt.links.set_and_swap(id, &mut list);
                list.remove(pos);
                rt.links.set_and_swap(id, &mut list);
                proof {
                    let m = old(rt)@;
                    let o = m.object(id as nat);
                    assert(m.object_wf(m.objects[id as int]));
                    lemma_remove_no_duplicates(o.links, pos as int);
                    let o2 = ObjectModel { links: o.links.remove_value(*recipient), ..o };
                    assert(rt@.objects =~= m.objects.update(id as int, o2));
                    lemma_with_object_wf(m, id as nat, o2);
                }
                Ok(())
            },
        }
    }
}

impl Runtime {
    /// Records that the process behind remote object `target` went away.
    /// Returns the recipients to notify: each one linked at that moment, once;
    /// none when the object was local or already dead. The links are gone
    /// afterwards.
    pub fn remote_died(&mut self, target: &WpIBinder) -> (r: Vec<DeathRecipient>)
        requires
            old(self).wf(),
            old(self)@.contains(target@),
        ensures
            final(self).wf(),
            r@ == (if old(self)@.dies_now(target@) {
                old(self)@.object(target@).links
            } else {
                Seq::<DeathRecipient>::empty()
            }),
            final(self)@ == old(self)@.after_death(target@),
    {
        let id = target.id;
        let st = self.states[id];
        let mut list = Vec::new();
        if st.local || !st.alive {
            proof {
                let m = old(self)@;
                assert(m.object_wf(m.objects[id as int]));
            }
            return list;
        }
        self.set_state(id, ObjectState { alive: false, ..st });
        self.links.set_and_swap(id, &mut list);
        proof {
            let m = old(self)@;
            let o = m.object(id as nat);
            let o2 = ObjectModel { alive: false, links: Seq::empty(), ..o };
            assert(self.links@[id as int]@ =~= Seq::<DeathRecipient>::empty());
            assert(self@.objects =~= m.objects.update(id as int, o2));
            assert(m.object_wf(m.objects[id as int]));
            lemma_with_object_wf(m, id as nat, o2);
        }
        list
    }
}

} // verus!
