use binder::class::InterfaceClass;
use binder::reference::{Capability, LocalAdapter, Proxy, Strong};
use binder::runtime::Runtime;
use binder::status::StatusCode;

#[test]
fn remote_handle_resolves_to_proxy_twice() {
    let mut rt = Runtime::new();
    let c1 = InterfaceClass::new(&mut rt, "pkg.IFoo");
    let a = rt.new_remote();
    let id = a.id();
    let first = Strong::try_from(&mut rt, a, c1).unwrap();
    assert!(!first.is_local());
    assert_eq!(first.binder_id(), id);
    let again = first.as_binder(&mut rt);
    let second = Strong::try_from(&mut rt, again, c1).unwrap();
    assert!(!second.is_local());
    assert_eq!(second.binder_id(), id);
    assert!(first == second);
    let probe = second.as_binder(&mut rt);
    assert_eq!(rt.get_class(&probe), Some(c1));
}

#[test]
fn local_service_resolves_to_its_adapter() {
    let mut rt = Runtime::new();
    let c1 = InterfaceClass::new(&mut rt, "pkg.IFoo");
    let service = Strong::new(Capability::Local(LocalAdapter::new(&mut rt, c1)));
    assert!(service.is_local());
    let handle = service.as_binder(&mut rt);
    let resolved = Strong::try_from(&mut rt, handle, c1).unwrap();
    assert!(resolved.is_local());
    assert_eq!(resolved.binder_id(), service.binder_id());
    assert_eq!(resolved.interface_class(), c1);
}

#[test]
fn local_service_resolution_is_idempotent() {
    let mut rt = Runtime::new();
    let c1 = InterfaceClass::new(&mut rt, "pkg.IFoo");
    let service = Strong::new(Capability::Local(LocalAdapter::new(&mut rt, c1)));
    let h1 = service.as_binder(&mut rt);
    let h2 = service.as_binder(&mut rt);
    let r1 = Strong::try_from(&mut rt, h1, c1).unwrap();
    let r2 = Strong::try_from(&mut rt, h2, c1).unwrap();
    assert!(r1 == r2);
    assert!(r1.is_local() && r2.is_local());
}

#[test]
fn same_descriptor_other_class_is_proxy() {
    let mut rt = Runtime::new();
    let c1 = InterfaceClass::new(&mut rt, "pkg.IFoo");
    let c2 = InterfaceClass::new(&mut rt, "pkg.IFoo");
    assert_ne!(c1, c2);
    assert_eq!(c1.get_descriptor(&rt), c2.get_descriptor(&rt));
    let h = rt.new_remote();
    assert!(rt.associate_class(&h, c2));
    let r = Strong::try_from(&mut rt, h, c1).unwrap();
    assert!(!r.is_local());
    assert_eq!(r.interface_class(), c1);
}

#[test]
fn local_service_of_other_same_descriptor_class_is_proxy() {
    let mut rt = Runtime::new();
    let c1 = InterfaceClass::new(&mut rt, "pkg.IFoo");
    let c2 = InterfaceClass::new(&mut rt, "pkg.IFoo");
    let service = Strong::new(Capability::Local(LocalAdapter::new(&mut rt, c2)));
    let handle = service.as_binder(&mut rt);
    let r = Strong::try_from(&mut rt, handle, c1).unwrap();
    assert!(!r.is_local());
    assert_eq!(r.binder_id(), service.binder_id());
    let handle = service.as_binder(&mut rt);
    assert_eq!(rt.get_class(&handle), Some(c2));
}

#[test]
fn other_descriptor_is_bad_type() {
    let mut rt = Runtime::new();
    let foo = InterfaceClass::new(&mut rt, "pkg.IFoo");
    let bar = InterfaceClass::new(&mut rt, "pkg.IBar");
    let h = rt.new_remote();
    let id = h.id();
    let first = Strong::try_from(&mut rt, h, foo).unwrap();
    let again = first.as_binder(&mut rt);
    let r = Strong::try_from(&mut rt, again, bar);
    assert!(matches!(r, Err(StatusCode::BadType)));
    let held = first.as_binder(&mut rt);
    assert_eq!(held.id(), id);
    assert_eq!(rt.get_class(&held), Some(foo));
}

#[test]
fn local_service_against_other_descriptor_is_bad_type() {
    let mut rt = Runtime::new();
    let foo = InterfaceClass::new(&mut rt, "pkg.IFoo");
    let bar = InterfaceClass::new(&mut rt, "pkg.IBar");
    let service = Strong::new(Capability::Local(LocalAdapter::new(&mut rt, foo)));
    let handle = service.as_binder(&mut rt);
    assert!(matches!(Strong::try_from(&mut rt, handle, bar), Err(StatusCode::BadType)));
}

#[test]
fn remote_never_becomes_local() {
    let mut rt = Runtime::new();
    let c1 = InterfaceClass::new(&mut rt, "pkg.IFoo");
    let h = rt.new_remote();
    let adapter = LocalAdapter::try_from_binder(&rt, h, c1);
    let h = match adapter {
        Ok(_) => panic!("a remote handle was taken for a local service"),
        Err(h) => h,
    };
    let r = Strong::try_from(&mut rt, h, c1).unwrap();
    assert!(!r.is_local());
    let cloned = r.clone(&mut rt).unwrap();
    assert!(!cloned.is_local());
    assert!(cloned == r);
}

#[test]
fn clone_of_local_reference_is_local() {
    let mut rt = Runtime::new();
    let c1 = InterfaceClass::new(&mut rt, "pkg.IFoo");
    let service = Strong::new(Capability::Local(LocalAdapter::new(&mut rt, c1)));
    let cloned = service.clone(&mut rt).unwrap();
    assert!(cloned.is_local());
    assert!(cloned == service);
}

#[test]
fn proxy_wraps_given_handle() {
    let mut rt = Runtime::new();
    let c1 = InterfaceClass::new(&mut rt, "pkg.IFoo");
    let h = rt.new_remote();
    let id = h.id();
    let s = Strong::new(Capability::Remote(Proxy::from_binder(h, c1)));
    assert!(!s.is_local());
    assert_eq!(s.binder_id(), id);
    assert_eq!(s.interface_class(), c1);
}

#[test]
fn references_order_by_identity() {
    let mut rt = Runtime::new();
    let c1 = InterfaceClass::new(&mut rt, "pkg.IFoo");
    let a = rt.new_remote();
    let b = rt.new_remote();
    let sa = Strong::try_from(&mut rt, a, c1).unwrap();
    let sb = Strong::try_from(&mut rt, b, c1).unwrap();
    assert!(sa < sb);
    assert!(sa != sb);
    assert_eq!(sa.partial_cmp(&sa), Some(std::cmp::Ordering::Equal));
    let wa = Strong::downgrade(&sa, &mut rt);
    let wb = Strong::downgrade(&sb, &mut rt);
    assert!(wb > wa);
    assert!(wa != wb);
    assert!(matches!(sa.as_ref(), Capability::Remote(_)));
}
