use pear_core::addr::{decode_addr, encode_addr, is_private_network, NetAddress};

#[test]
fn encoding_is_the_documented_byte_layout() {
    let a = NetAddress { o0: 203, o1: 0, o2: 113, o3: 9, port: 4001 };
    assert_eq!(encode_addr(&a), vec![4, 203, 0, 113, 9, 6, 15, 161]);
}

#[test]
fn decoding_undoes_encoding() {
    let a = NetAddress { o0: 8, o1: 8, o2: 8, o3: 8, port: 65535 };
    assert_eq!(decode_addr(&encode_addr(&a)), Some(a));
    let b = NetAddress { o0: 0, o1: 0, o2: 0, o3: 0, port: 0 };
    assert_eq!(decode_addr(&encode_addr(&b)), Some(b));
}

#[test]
fn decoding_rejects_malformed_values() {
    assert_eq!(decode_addr(&vec![]), None);
    assert_eq!(decode_addr(&vec![4, 1, 2, 3, 4, 6, 0]), None);
    assert_eq!(decode_addr(&vec![4, 1, 2, 3, 4, 6, 0, 1, 9]), None);
    assert_eq!(decode_addr(&vec![5, 1, 2, 3, 4, 6, 0, 1]), None);
    assert_eq!(decode_addr(&vec![4, 1, 2, 3, 4, 7, 0, 1]), None);
}

#[test]
fn loopback_and_private_ranges_are_private() {
    for a in [
        NetAddress { o0: 127, o1: 0, o2: 0, o3: 1, port: 1 },
        NetAddress { o0: 127, o1: 5, o2: 6, o3: 7, port: 1 },
        NetAddress { o0: 10, o1: 0, o2: 0, o3: 1, port: 1 },
        NetAddress { o0: 172, o1: 16, o2: 0, o3: 1, port: 1 },
        NetAddress { o0: 172, o1: 31, o2: 255, o3: 255, port: 1 },
        NetAddress { o0: 192, o1: 168, o2: 1, o3: 5, port: 1 },
        NetAddress { o0: 100, o1: 64, o2: 0, o3: 1, port: 1 },
        NetAddress { o0: 100, o1: 127, o2: 255, o3: 255, port: 1 },
    ] {
        assert!(is_private_network(&a));
    }
}

#[test]
fn public_ranges_are_public() {
    for a in [
        NetAddress { o0: 8, o1: 8, o2: 8, o3: 8, port: 1 },
        NetAddress { o0: 203, o1: 0, o2: 113, o3: 9, port: 1 },
        NetAddress { o0: 172, o1: 15, o2: 0, o3: 1, port: 1 },
        NetAddress { o0: 172, o1: 32, o2: 0, o3: 1, port: 1 },
        NetAddress { o0: 100, o1: 63, o2: 0, o3: 1, port: 1 },
        NetAddress { o0: 100, o1: 128, o2: 0, o3: 1, port: 1 },
        NetAddress { o0: 192, o1: 169, o2: 0, o3: 1, port: 1 },
        NetAddress { o0: 11, o1: 0, o2: 0, o3: 1, port: 1 },
        NetAddress { o0: 126, o1: 255, o2: 0, o3: 1, port: 1 },
    ] {
        assert!(!is_private_network(&a));
    }
}
