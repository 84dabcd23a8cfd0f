use ksupport::trap::{exception, TrapCause};
use ksupport::writeback::{attribute_writeback, Attribute, TypeInfo, WritebackCall};

#[test]
fn writeback_tagged_attributes_only() {
    let types = vec![
        TypeInfo {
            objects: vec![0x1000, 0x2000],
            attributes: vec![
                Attribute { offset: 4, tag: b"i".to_vec(), name: b"x".to_vec() },
                Attribute { offset: 8, tag: Vec::new(), name: b"y".to_vec() },
            ],
        },
        TypeInfo { objects: vec![], attributes: vec![] },
        TypeInfo {
            objects: vec![usize::MAX],
            attributes: vec![Attribute { offset: 2, tag: b"b".to_vec(), name: b"z".to_vec() }],
        },
    ];
    let calls = attribute_writeback(&types);
    assert_eq!(
        calls,
        vec![
            WritebackCall { type_index: 0, attribute_index: 0, object: 0x1000, address: 0x1004 },
            WritebackCall { type_index: 0, attribute_index: 0, object: 0x2000, address: 0x2004 },
            WritebackCall { type_index: 2, attribute_index: 0, object: usize::MAX, address: 1 },
        ]
    );
}

#[test]
fn writeback_empty_table() {
    assert!(attribute_writeback(&Vec::new()).is_empty());
}

#[test]
fn trap_in_stack_guard() {
    let r = exception(TrapCause::StoreFault, 0x100, 0x8010, 0x8000, 0x1000);
    assert!(r.stack_overflow);
    let r = exception(TrapCause::LoadFault, 0x100, 0x9000, 0x8000, 0x1000);
    assert!(!r.stack_overflow);
    let r = exception(TrapCause::Other(2), 0x100, 0x8010, 0x8000, 0x1000);
    assert!(!r.stack_overflow);
    assert_eq!(r.pc, 0x100);
}
