use slang::com::query_interface;
use slang::com::succeeded;
use slang::com::uuid;
use slang::com::Failure;
use slang::com::InterfaceKind;
use slang::com::RefCount;
use slang::com::FAILED;

const KINDS: [InterfaceKind; 4] =
    [InterfaceKind::Unknown, InterfaceKind::Castable, InterfaceKind::Blob, InterfaceKind::FileSystem];

#[test]
fn ids_are_told_apart() {
    let blob = uuid(0x8BA5FB08, 0x5195, 0x40e2, [0xAC, 0x58, 0x0D, 0x98, 0x9C, 0x3A, 0x01, 0x02]);
    assert!(InterfaceKind::Blob.matches(&blob));
    assert!(blob.matches(&InterfaceKind::Blob.id()));
    for a in KINDS {
        for b in KINDS {
            assert_eq!(a.matches(&b.id()), a == b);
        }
    }
    let mut near = InterfaceKind::Unknown.id();
    near.data4[7] = 0x47;
    assert!(!InterfaceKind::Unknown.matches(&near));
    let mut near = InterfaceKind::Castable.id();
    near.data2 = 0x4853;
    assert!(!InterfaceKind::Castable.matches(&near));
    let id = uuid(1, 2, 3, [4, 5, 6, 7, 8, 9, 10, 11]);
    assert_eq!((id.data1, id.data2, id.data3, id.data4), (1, 2, 3, [4, 5, 6, 7, 8, 9, 10, 11]));
}

#[test]
fn objects_answer_to_their_interfaces() {
    let table = [
        (InterfaceKind::Unknown, InterfaceKind::Unknown, true),
        (InterfaceKind::Unknown, InterfaceKind::Castable, false),
        (InterfaceKind::Unknown, InterfaceKind::Blob, false),
        (InterfaceKind::Unknown, InterfaceKind::FileSystem, false),
        (InterfaceKind::Castable, InterfaceKind::Unknown, true),
        (InterfaceKind::Castable, InterfaceKind::Castable, true),
        (InterfaceKind::Castable, InterfaceKind::Blob, false),
        (InterfaceKind::Castable, InterfaceKind::FileSystem, false),
        (InterfaceKind::Blob, InterfaceKind::Unknown, true),
        (InterfaceKind::Blob, InterfaceKind::Castable, false),
        (InterfaceKind::Blob, InterfaceKind::Blob, true),
        (InterfaceKind::Blob, InterfaceKind::FileSystem, false),
        (InterfaceKind::FileSystem, InterfaceKind::Unknown, true),
        (InterfaceKind::FileSystem, InterfaceKind::Castable, true),
        (InterfaceKind::FileSystem, InterfaceKind::Blob, false),
        (InterfaceKind::FileSystem, InterfaceKind::FileSystem, true),
    ];
    for (kind, asked, expected) in table {
        assert_eq!(kind.is_interface_compatible(&asked.id()), expected, "{:?} {:?}", kind, asked);
    }
    let stranger = uuid(0xc140b5fd, 0xc78, 0x452e, [0xba, 0x7c, 0x1a, 0x1e, 0x70, 0xc7, 0xf7, 0x1c]);
    for kind in KINDS {
        assert!(!kind.is_interface_compatible(&stranger));
    }
}

#[test]
fn references_are_counted() {
    let mut count = RefCount::new();
    assert_eq!(count.get(), 0);
    assert_eq!(count.release(), None);
    assert_eq!(count.add_ref(), Some(1));
    assert_eq!(count.add_ref(), Some(2));
    assert_eq!(count.get(), 2);
    assert_eq!(count.release(), Some(1));
    assert_eq!(count.release(), Some(0));
    assert_eq!(count.release(), None);
    assert_eq!(count.get(), 0);
}

#[test]
fn queries_count_a_reference_when_they_succeed() {
    let mut count = RefCount::new();
    let blob = InterfaceKind::Blob;
    let offered = blob.is_interface_compatible(&InterfaceKind::Blob.id());
    assert_eq!(query_interface(offered, &mut count), 0);
    assert_eq!(count.get(), 1);
    let offered = blob.is_interface_compatible(&InterfaceKind::Unknown.id());
    assert_eq!(query_interface(offered, &mut count), 0);
    assert_eq!(count.get(), 2);
    let offered = blob.is_interface_compatible(&InterfaceKind::FileSystem.id());
    assert_eq!(query_interface(offered, &mut count), -1);
    assert_eq!(count.get(), 2);
}

#[test]
fn result_codes() {
    assert!(succeeded(0));
    assert!(succeeded(1));
    assert!(!succeeded(-1));
    assert!(!succeeded(i32::MIN));
    assert_eq!(FAILED, -1);
    assert_eq!(Failure::Code(-7).code(), -7);
    assert_eq!(Failure::Code(5).code(), 5);
    assert_eq!(Failure::InvalidPtr.code(), -1);
    assert_eq!(Failure::Io.code(), -1);
    assert_eq!(Failure::Diagnostics.code(), -1);
    assert_eq!(Failure::Unknown.code(), -1);
    assert_eq!(Failure::of_call(0, false), None);
    assert_eq!(Failure::of_call(3, true), None);
    assert_eq!(Failure::of_call(-2, true), Some(Failure::Diagnostics));
    assert_eq!(Failure::of_call(-2, false), Some(Failure::Code(-2)));
}
