use picovm::interner::{Interner, PicoStr};

#[test]
fn intern_is_idempotent() {
    let mut it = Interner::new();
    let a = it.intern("hello");
    let b = it.intern("hello");
    assert_eq!(a, b);
    assert_eq!(it.len(), 1);
}

#[test]
fn resolve_returns_the_interned_string() {
    let mut it = Interner::new();
    let a = it.intern("hello");
    assert_eq!(it.resolve(a), "hello");
}

#[test]
fn empty_and_unicode_strings_round_trip() {
    let mut it = Interner::new();
    let empty = it.intern("");
    let uni = it.intern("héllo☃ world");
    assert_eq!(it.resolve(empty), "");
    assert_eq!(it.resolve(uni), "héllo☃ world");
    assert_eq!(it.intern(""), empty);
    assert_eq!(it.intern("héllo☃ world"), uni);
}

#[test]
fn distinct_strings_get_distinct_identities() {
    let mut it = Interner::new();
    let a = it.intern("alpha");
    let b = it.intern("beta");
    let c = it.intern("gamma");
    assert_ne!(a, b);
    assert_ne!(b, c);
    assert_ne!(a, c);
    assert_eq!(it.resolve(a), "alpha");
    assert_eq!(it.resolve(b), "beta");
    assert_eq!(it.resolve(c), "gamma");
}

#[test]
fn static_and_dynamic_interning_share_identities() {
    let mut it = Interner::new();
    let dynamic = PicoStr::new(&mut it, &String::from("field"));
    let fixed = PicoStr::static_(&mut it, "field");
    assert_eq!(dynamic, fixed);
    assert_eq!(fixed.resolve(&it), "field");
}

#[test]
fn lookup_finds_only_interned_strings() {
    let mut it = Interner::new();
    assert!(PicoStr::lookup(&it, "missing").is_none());
    let a = PicoStr::new(&mut it, "present");
    let found = PicoStr::lookup(&it, "present").unwrap();
    assert_eq!(a, found);
    assert!(PicoStr::lookup(&it, "missing").is_none());
}

#[test]
fn identities_stay_stable_as_the_table_grows() {
    let mut it = Interner::new();
    let first = it.intern("first");
    for i in 0..100u32 {
        it.intern(&format!("filler-{}", i));
    }
    assert_eq!(it.intern("first"), first);
    assert_eq!(it.resolve(first), "first");
}

#[test]
fn ordering_resolves_strings_not_raw_identities() {
    let mut it = Interner::new();
    let b = it.intern("banana");
    let a = it.intern("apple");
    let pa = PicoStr::lookup(&it, "apple").unwrap();
    let pb = PicoStr::lookup(&it, "banana").unwrap();
    // "banana" was interned first, so its raw identity is the smaller one;
    // the order still follows the strings.
    assert!(b < a);
    assert!(pa.lt(&pb, &it));
    assert!(!pb.lt(&pa, &it));
    assert!(!pa.lt(&pa, &it));
}
