//! Interface classes: the process-wide identity of each interface type.
//!
//! A class is defined with a descriptor string. Two classes are the same only
//! when they come from the same definition; two definitions that share a
//! descriptor are still distinct classes.
use vstd::prelude::*;

verus! {

/// Identity of an interface class: the definition that created it.
#[derive(Debug, Clone, Copy, PartialEq, Eq, Structural)]
pub struct InterfaceClass {
    index: usize,
}

impl View for InterfaceClass {
    type V = nat;

    /// The position of the class among the definitions of its registry.
    closed spec fn view(&self) -> nat {
        self.index as nat
    }
}

/// What a registry holds, seen as mathematics.
pub struct RegistryModel {
    /// The descriptor of each defined class, in order of definition.
    pub descriptors: Seq<Seq<char>>,
    /// The class cached for each interface type key.
    pub cache: Map<u64, InterfaceClass>,
}

impl RegistryModel {
    /// Whether `c` was defined in this registry.
    pub open spec fn defines(self, c: InterfaceClass) -> bool {
        c@ < self.descriptors.len()
    }

    /// Every cached class was defined here.
    pub open spec fn wf(self) -> bool {
        forall|k: u64| #[trigger] self.cache.contains_key(k) ==> self.defines(self.cache[k])
    }

    /// The registry after one more definition with descriptor `d`.
    pub open spec fn with_class(self, d: Seq<char>) -> RegistryModel {
        RegistryModel { descriptors: self.descriptors.push(d), cache: self.cache }
    }
}

/// The classes that one process has defined, and the class cached for each
/// interface type.
pub struct ClassRegistry {
    descriptors: Vec<String>,
    keys: Vec<u64>,
    classes: Vec<InterfaceClass>,
    cache: Ghost<Map<u64, InterfaceClass>>,
}

impl View for ClassRegistry {
    type V = RegistryModel;

    closed spec fn view(&self) -> RegistryModel {
        RegistryModel {
            descriptors: self.descriptors@.map_values(|s: String| s@),
            cache: self.cache@,
        }
    }
}

impl ClassRegistry {
    /// The cache's vectors agree with its map, and keys occur once.
    pub closed spec fn wf(&self) -> bool {
        &&& self.keys@.len() == self.classes@.len()
        &&& self.keys@.no_duplicates()
        &&& forall|i: int| 0 <= i < self.keys@.len() ==> self.cache@.contains_key(#[trigger] self.keys@[i])
            && self.cache@[self.keys@[i]] == self.classes@[i]
        &&& forall|k: u64| #[trigger] self.cache@.contains_key(k) ==> self.keys@.contains(k)
        &&& self@.wf()
    }

    /// An empty registry.
    pub fn new() -> (r: ClassRegistry)
        ensures
            r.wf(),
            r@.descriptors == Seq::<Seq<char>>::empty(),
            r@.cache == Map::<u64, InterfaceClass>::empty(),
    {
        let r = ClassRegistry {
            descriptors: Vec::new(),
            keys: Vec::new(),
            classes: Vec::new(),
            cache: Ghost(Map::empty()),
        };
        assert(r@.descriptors =~= Seq::<Seq<char>>::empty());
        r
    }

    /// Defines a new class with descriptor `descriptor`.
    pub fn define(&mut self, descriptor: &str) -> (r: InterfaceClass)
        requires
            old(self).wf(),
            old(self)@.descriptors.len() < usize::MAX,
        ensures
            final(self).wf(),
            r@ == old(self)@.descriptors.len(),
            final(self)@ == old(self)@.with_class(descriptor@),
    {
        let r = InterfaceClass { index: self.descriptors.len() };
        self.descriptors.push(descriptor.to_owned());
        assert(self@.descriptors =~= old(self)@.descriptors.push(descriptor@));
        assert(self@ == old(self)@.with_class(descriptor@));
        r
    }

    /// The descriptor of class `c`.
    pub fn descriptor(&self, c: InterfaceClass) -> (r: String)
        requires
            self@.defines(c),
        ensures
            r@ == self@.descriptors[c@ as int],
    {
        self.descriptors[c.index].clone()
    }

    /// Whether classes `a` and `b` carry the same descriptor.
    pub fn same_descriptor(&self, a: InterfaceClass, b: InterfaceClass) -> (r: bool)
        requires
            self@.defines(a),
            self@.defines(b),
        ensures
            r == (self@.descriptors[a@ as int] == self@.descriptors[b@ as int]),
    {
        self.descriptors[a.index] == self.descriptors[b.index]
    }

    /// The class cached for interface type `key`, if one is.
    pub fn cached(&self, key: u64) -> (r: Option<InterfaceClass>)
        requires
            self.wf(),
        ensures
            r == (if self@.cache.contains_key(key) {
                Some(self@.cache[key])
            } else {
                None::<InterfaceClass>
            }),
    {
        let mut i: usize = 0;
        while i < self.keys.len()
            invariant
                self.wf(),
                i <= self.keys@.len(),
                forall|j: int| 0 <= j < i ==> self.keys@[j] != key,
            decreases self.keys@.len() - i,
        {
            if self.keys[i] == key {
                return Some(self.classes[i]);
            }
            i = i + 1;
        }
        None
    }

    /// The class of interface type `key`: the cached one, or else a class
    /// defined now with `descriptor` and cached for later calls.
    pub fn class_for(&mut self, key: u64, descriptor: &str) -> (r: InterfaceClass)
        requires
            old(self).wf(),
            old(self)@.descriptors.len() < usize::MAX,
        ensures
            final(self).wf(),
            final(self)@.defines(r),
            final(self)@.cache.contains_key(key),
            final(self)@.cache[key] == r,
            old(self)@.cache.contains_key(key) ==> final(self)@ == old(self)@ && r == old(
                self,
            )@.cache[key],
            !old(self)@.cache.contains_key(key) ==> r@ == old(self)@.descriptors.len()
                && final(self)@.descriptors == old(self)@.descriptors.push(descriptor@)
                && final(self)@.cache == old(self)@.cache.insert(key, r),
    {
        match self.cached(key) {
            Some(c) => c,
            None => {
                let c = self.define(descriptor);
                let ghost keys0 = self.keys@;
                proof {
                    assert(!self.keys@.contains(key));
                }
                self.keys.push(key);
                self.classes.push(c);
                self.cache = Ghost(self.cache@.insert(key, c));
                proof {
                    assert forall|i: int| 0 <= i < self.keys@.len() implies self.cache@.contains_key(
                        #[trigger] self.keys@[i],
                    ) && self.cache@[self.keys@[i]] == self.classes@[i] by {
                        if i < self.keys@.len() - 1 {
                            assert(keys0[i] == self.keys@[i]);
                            assert(self.keys@[i] != key);
                        }
                    }
                    assert forall|k: u64| #[trigger] self.cache@.contains_key(k) implies self.keys@.contains(k) by {
                        if k != key {
                            assert(keys0.contains(k));
                            let j = choose|j: int| 0 <= j < keys0.len() && keys0[j] == k;
                            assert(self.keys@[j] == k);
                        } else {
                            assert(self.keys@[self.keys@.len() - 1] == key);
                        }
                    }
                }
                c
            },
        }
    }
}

} // verus!
