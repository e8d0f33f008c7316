//! The runtime shim: symbol resolution, the Objective-C model, reference
//! counting, the futex mutex protocol and the libSystem registrations.

use std::sync::Arc;

use iosonandroid::arc::{release_outcome_of, retained_count, RefCounted, ReleaseOutcome};
use iosonandroid::format::Import;
use iosonandroid::libsystem::{register, ShimAddresses};
use iosonandroid::objc::{objc_msg_send, Class, DoesNotRespond, Imp, Object, Sel};
use iosonandroid::registry::Registry;
use iosonandroid::sync::{
    must_wake, progress_of, FutexMutex, LockProgress, LOCKED_NO_WAITERS, LOCKED_WAITERS, UNLOCKED,
};

fn shims() -> ShimAddresses {
    ShimAddresses {
        malloc: 0x10,
        free: 0x20,
        memcpy: 0x30,
        strlen: 0x40,
    }
}

// ---------------------------------------------------------------------
// registry
// ---------------------------------------------------------------------

#[test]
fn resolves_known_symbols() {
    let mut reg = Registry::new();
    reg.define("_exit", 0x1000).define("_write", 0x2000);

    let imports = vec![
        Import {
            name: "_write".to_string(),
        },
        Import {
            name: "_exit".to_string(),
        },
    ];
    let report = reg.resolve(&imports);

    assert!(report.is_fully_resolved());
    assert_eq!(
        report.resolved,
        vec![
            ("_write".to_string(), 0x2000),
            ("_exit".to_string(), 0x1000),
        ]
    );
}

#[test]
fn reports_missing_symbols_without_guessing() {
    let mut reg = Registry::new();
    reg.define("_exit", 0x1000);

    let imports = vec![
        Import {
            name: "_exit".to_string(),
        },
        Import {
            name: "_NSLog".to_string(), // not implemented yet
        },
    ];
    let report = reg.resolve(&imports);

    assert!(!report.is_fully_resolved());
    assert_eq!(report.resolved, vec![("_exit".to_string(), 0x1000)]);
    assert_eq!(report.missing, vec!["_NSLog".to_string()]);
}

#[test]
fn empty_import_list_is_trivially_resolved() {
    let reg = Registry::new();
    assert!(reg.resolve(&[]).is_fully_resolved());
}

#[test]
fn is_defined_reflects_registrations() {
    let mut reg = Registry::new();
    assert!(!reg.is_defined("_exit"));
    reg.define("_exit", 0x1000);
    assert!(reg.is_defined("_exit"));
}

#[test]
fn redefining_a_symbol_replaces_its_address() {
    let mut reg = Registry::new();
    reg.define("_exit", 0x1000).define("_exit", 0x3000);
    assert_eq!(reg.lookup("_exit"), Some(0x3000));
    let report = reg.resolve(&[Import {
        name: "_exit".to_string(),
    }]);
    assert_eq!(report.resolved, vec![("_exit".to_string(), 0x3000)]);
}

#[test]
fn every_import_is_resolved_or_missing_in_order() {
    let mut reg = Registry::new();
    reg.define("_a", 1).define("_c", 3);
    let names = ["_a", "_b", "_c", "_d", "_a"];
    let imports: Vec<Import> = names
        .iter()
        .map(|n| Import {
            name: n.to_string(),
        })
        .collect();
    let report = reg.resolve(&imports);
    assert_eq!(
        report.resolved,
        vec![
            ("_a".to_string(), 1),
            ("_c".to_string(), 3),
            ("_a".to_string(), 1)
        ]
    );
    assert_eq!(report.missing, vec!["_b".to_string(), "_d".to_string()]);
    assert_eq!(report.resolved.len() + report.missing.len(), imports.len());
}

// ---------------------------------------------------------------------
// libSystem
// ---------------------------------------------------------------------

#[test]
fn register_defines_expected_symbols() {
    let mut reg = Registry::new();
    register(&mut reg, &shims());
    for name in ["_malloc", "_free", "_memcpy", "_strlen"] {
        assert!(reg.is_defined(name), "{name} should be registered");
    }
    assert!(!reg.is_defined("_printf")); // not in this minimal subset yet
}

#[test]
fn registered_shims_resolve_to_their_addresses() {
    let mut reg = Registry::new();
    register(&mut reg, &shims());
    let report = reg.resolve(&[
        Import {
            name: "_strlen".to_string(),
        },
        Import {
            name: "_malloc".to_string(),
        },
    ]);
    assert_eq!(
        report.resolved,
        vec![("_strlen".to_string(), 0x40), ("_malloc".to_string(), 0x10)]
    );
}

// ---------------------------------------------------------------------
// objc
// ---------------------------------------------------------------------

#[test]
fn resolves_method_defined_directly_on_the_class() {
    let mut nsobject = Class::root("NSObject");
    nsobject.add_method("init", Imp(0x1000));
    let nsobject = Arc::new(nsobject);
    let obj = Object::new(nsobject);

    let imp = objc_msg_send(Some(&obj), &Sel::new("init")).unwrap();
    assert_eq!(imp, Some(Imp(0x1000)));
}

#[test]
fn inherits_method_from_superclass() {
    let mut nsobject = Class::root("NSObject");
    nsobject.add_method("description", Imp(0x2000));
    let nsobject = Arc::new(nsobject);

    let subclass = Arc::new(Class::derive("MyThing", Arc::clone(&nsobject)));
    let obj = Object::new(subclass);

    let imp = objc_msg_send(Some(&obj), &Sel::new("description")).unwrap();
    assert_eq!(imp, Some(Imp(0x2000)));
}

#[test]
fn subclass_override_shadows_superclass_method() {
    let mut nsobject = Class::root("NSObject");
    nsobject.add_method("description", Imp(0x2000));
    let nsobject = Arc::new(nsobject);

    let mut subclass = Class::derive("MyThing", Arc::clone(&nsobject));
    subclass.add_method("description", Imp(0x3000));
    let obj = Object::new(Arc::new(subclass));

    let imp = objc_msg_send(Some(&obj), &Sel::new("description")).unwrap();
    assert_eq!(imp, Some(Imp(0x3000)));
}

#[test]
fn unimplemented_selector_reports_does_not_respond() {
    let nsobject = Arc::new(Class::root("NSObject"));
    let obj = Object::new(nsobject);

    let err = objc_msg_send(Some(&obj), &Sel::new("frobnicate")).unwrap_err();
    assert_eq!(
        err,
        DoesNotRespond {
            class: "NSObject".to_string(),
            sel: Sel::new("frobnicate"),
        }
    );
}

#[test]
fn messaging_nil_returns_none_without_lookup() {
    let result = objc_msg_send(None, &Sel::new("anything"));
    assert_eq!(result, Ok(None));
}

#[test]
fn ivar_offsets_accumulate_across_inheritance() {
    let mut base = Class::root("Base");
    base.add_ivar("baseField", 8);
    let base = Arc::new(base);
    assert_eq!(base.instance_size(), 8);

    let mut derived = Class::derive("Derived", Arc::clone(&base));
    derived.add_ivar("derivedField", 4);

    assert_eq!(derived.instance_size(), 12);
    assert_eq!(derived.own_ivars()[0].name, "derivedField");
    assert_eq!(derived.own_ivars()[0].offset, 8);

    let obj = Object::new(Arc::new(derived));
    assert_eq!(obj.ivars.len(), 12);
}

#[test]
fn is_kind_of_walks_the_hierarchy() {
    let nsobject = Arc::new(Class::root("NSObject"));
    let middle = Arc::new(Class::derive("Middle", Arc::clone(&nsobject)));
    let leaf = Class::derive("Leaf", Arc::clone(&middle));

    assert!(leaf.is_kind_of("Leaf"));
    assert!(leaf.is_kind_of("Middle"));
    assert!(leaf.is_kind_of("NSObject"));
    assert!(!leaf.is_kind_of("SomethingElse"));
}

#[test]
fn re_adding_a_method_replaces_it() {
    let mut c = Class::root("NSObject");
    c.add_method("init", Imp(1))
        .add_method("dealloc", Imp(2))
        .add_method("init", Imp(3));
    assert_eq!(c.resolve(&Sel::new("init")), Some(Imp(3)));
    assert_eq!(c.resolve(&Sel::new("dealloc")), Some(Imp(2)));
    assert_eq!(c.resolve(&Sel::new("copy")), None);
}

#[test]
fn ivars_are_packed_one_after_another() {
    let mut c = Class::root("Point");
    c.add_ivar("x", 8).add_ivar("y", 8).add_ivar("flag", 1);
    let offsets: Vec<usize> = c.own_ivars().iter().map(|v| v.offset).collect();
    assert_eq!(offsets, vec![0, 8, 16]);
    assert_eq!(c.instance_size(), 17);
    assert!(Object::new(Arc::new(c)).ivars.iter().all(|&b| b == 0));
}

#[test]
fn selectors_compare_by_name() {
    assert_eq!(Sel::new("init"), Sel::from("init"));
    assert_ne!(Sel::new("init"), Sel::new("initWithFrame:"));
    assert_eq!(Sel::new("setValue:forKey:").name(), "setValue:forKey:");
}

// ---------------------------------------------------------------------
// arc
// ---------------------------------------------------------------------

#[test]
fn starts_with_one_owning_reference() {
    assert_eq!(RefCounted::new().retain_count(), 1);
}

#[test]
fn retain_increments_and_release_decrements() {
    let rc = RefCounted::new();
    assert_eq!(rc.retain(), 2);
    assert_eq!(rc.retain(), 3);
    assert_eq!(rc.release(), ReleaseOutcome::StillAlive(2));
    assert_eq!(rc.release(), ReleaseOutcome::StillAlive(1));
}

#[test]
fn final_release_signals_deallocate_exactly_once() {
    let rc = RefCounted::new();
    assert_eq!(rc.release(), ReleaseOutcome::ShouldDeallocate);
    assert_eq!(rc.retain_count(), 0);
}

#[test]
fn over_release_is_reported_not_ub() {
    let rc = RefCounted::new();
    assert_eq!(rc.release(), ReleaseOutcome::ShouldDeallocate);
    // A second release past zero must not panic or wrap around to
    // usize::MAX; it must be reported.
    assert_eq!(rc.release(), ReleaseOutcome::AlreadyZero);
    assert_eq!(rc.retain_count(), 0);
}

#[test]
fn retain_then_release_restores_the_count() {
    let rc = RefCounted::default();
    for _ in 0..5 {
        rc.retain();
    }
    let before = rc.retain_count();
    rc.retain();
    assert_eq!(rc.release(), ReleaseOutcome::StillAlive(before));
    assert_eq!(rc.retain_count(), before);
}

// ---------------------------------------------------------------------
// sync
// ---------------------------------------------------------------------

#[test]
fn uncontended_lock_unlock_round_trips() {
    let m = FutexMutex::new();
    assert!(m.try_lock());
    assert!(!m.try_lock()); // already held
    m.unlock_step();
    assert!(m.try_lock());
    m.unlock_step();
}

#[test]
fn lock_steps_follow_the_three_state_protocol() {
    let m = FutexMutex::default();
    // Free: a contended-path attempt acquires it, marking waiters.
    assert_eq!(m.lock_step(), LockProgress::Acquired);
    // Held: another attempt must wait.
    assert_eq!(m.lock_step(), LockProgress::MustWait);
    // Unlocking a lock marked as having waiters asks for a wake-up.
    assert!(m.unlock_step());
    // Uncontended lock and unlock need no wake-up.
    assert!(m.try_lock());
    assert!(!m.unlock_step());
}

#[test]
fn release_outcome_follows_the_observed_count() {
    assert_eq!(release_outcome_of(Err(0)), ReleaseOutcome::AlreadyZero);
    assert_eq!(release_outcome_of(Ok(1)), ReleaseOutcome::ShouldDeallocate);
    assert_eq!(release_outcome_of(Ok(2)), ReleaseOutcome::StillAlive(1));
    assert_eq!(release_outcome_of(Ok(7)), ReleaseOutcome::StillAlive(6));
}

#[test]
fn retained_count_is_one_more_than_the_replaced_count() {
    assert_eq!(retained_count(1), 2);
    assert_eq!(retained_count(41), 42);
    assert_eq!(retained_count(usize::MAX), 0);
}

#[test]
fn retain_then_release_of_the_observed_count_round_trips() {
    for c in [1usize, 2, 5, 1000] {
        assert_eq!(
            release_outcome_of(Ok(retained_count(c))),
            ReleaseOutcome::StillAlive(c)
        );
    }
}

#[test]
fn lock_progress_depends_on_the_replaced_state() {
    assert_eq!(progress_of(UNLOCKED), LockProgress::Acquired);
    assert_eq!(progress_of(LOCKED_NO_WAITERS), LockProgress::MustWait);
    assert_eq!(progress_of(LOCKED_WAITERS), LockProgress::MustWait);
}

#[test]
fn only_an_unlock_over_waiters_must_wake() {
    assert!(must_wake(LOCKED_WAITERS));
    assert!(!must_wake(LOCKED_NO_WAITERS));
    assert!(!must_wake(UNLOCKED));
}

#[test]
fn class_name_and_superclass_are_the_public_fields() {
    let nsobject = Arc::new(Class::root("NSObject"));
    assert_eq!(nsobject.name(), "NSObject");
    assert!(nsobject.superclass().is_none());

    let subclass = Class::derive("MyThing", Arc::clone(&nsobject));
    assert_eq!(subclass.name(), &subclass.name);
    assert_eq!(subclass.name(), "MyThing");
    assert_eq!(subclass.superclass().as_ref().unwrap().name, "NSObject");
}
