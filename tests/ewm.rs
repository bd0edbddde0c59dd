use ewm_compositor::{decode_window_ids, RootHintAtoms, RootWindowHintCodes};

#[test]
fn decodes_little_endian_ids() {
    let bytes: Vec<u8> = vec![0x78, 0x56, 0x34, 0x12, 0xff, 0xff, 0xff, 0xff, 0x01, 0x02];
    assert_eq!(decode_window_ids(&bytes), vec![0x1234_5678, 0xffff_ffff]);
}

#[test]
fn decodes_empty_and_short_payloads() {
    assert_eq!(decode_window_ids(&[]), Vec::<u32>::new());
    assert_eq!(decode_window_ids(&[1, 2, 3]), Vec::<u32>::new());
    assert_eq!(decode_window_ids(&[0, 1, 0, 0]), vec![256]);
}

#[test]
fn classifies_hint_atoms() {
    let atoms = RootHintAtoms { client_list_stacking: 300, active_window: 301 };
    assert_eq!(atoms.hint_of(300), Some(RootWindowHintCodes::_NET_CLIENT_LIST_STACKING));
    assert_eq!(atoms.hint_of(301), Some(RootWindowHintCodes::_NET_ACTIVE_WINDOW));
    assert_eq!(atoms.hint_of(246), None);
}
