use binder::runtime::Runtime;
use binder::class::InterfaceClass;

#[test]
fn each_definition_is_a_new_class() {
    let mut rt = Runtime::new();
    let a = InterfaceClass::new(&mut rt, "pkg.IFoo");
    let b = InterfaceClass::new(&mut rt, "pkg.IFoo");
    let c = InterfaceClass::new(&mut rt, "pkg.IBar");
    assert_ne!(a, b);
    assert_ne!(b, c);
    assert_eq!(a.get_descriptor(&rt), "pkg.IFoo");
    assert_eq!(c.get_descriptor(&rt), "pkg.IBar");
    assert!(rt.same_descriptor(a, b));
    assert!(!rt.same_descriptor(a, c));
}

#[test]
fn class_for_defines_once_per_key() {
    let mut rt = Runtime::new();
    let first = rt.class_for(7, "pkg.IFoo");
    let second = rt.class_for(7, "pkg.IFoo");
    assert_eq!(first, second);
    let other = rt.class_for(8, "pkg.IFoo");
    assert_ne!(first, other);
    assert_eq!(other.get_descriptor(&rt), "pkg.IFoo");
    let explicit = InterfaceClass::new(&mut rt, "pkg.IFoo");
    assert_ne!(explicit, first);
    assert_eq!(rt.class_for(7, "ignored"), first);
    assert_eq!(first.get_descriptor(&rt), "pkg.IFoo");
}

#[test]
fn associate_class_rules() {
    let mut rt = Runtime::new();
    let foo = InterfaceClass::new(&mut rt, "pkg.IFoo");
    let foo2 = InterfaceClass::new(&mut rt, "pkg.IFoo");
    let bar = InterfaceClass::new(&mut rt, "pkg.IBar");
    let h = rt.new_remote();
    assert_eq!(rt.get_class(&h), None);
    assert!(rt.associate_class(&h, foo));
    assert_eq!(rt.get_class(&h), Some(foo));
    assert!(rt.associate_class(&h, foo));
    assert!(rt.associate_class(&h, foo2));
    assert_eq!(rt.get_class(&h), Some(foo));
    assert!(!rt.associate_class(&h, bar));
    assert_eq!(rt.get_class(&h), Some(foo));
}
