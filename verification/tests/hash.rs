use minecrate::mojang::create_server_hash;

// The well-known signed-hex digest vectors of the session protocol.
#[test]
fn server_hash_notch() {
    let h = create_server_hash(&b"Notch".to_vec(), &Vec::new(), &Vec::new()).unwrap();
    assert_eq!(h, "4ed1f46bbe04bc756bcb17c0c7ce3e4632f06a48");
}

#[test]
fn server_hash_jeb() {
    let h = create_server_hash(&b"jeb_".to_vec(), &Vec::new(), &Vec::new()).unwrap();
    assert_eq!(h, "-7c9d5b0044c130109a5d7b5fb5c317c02b4e28c1");
}

#[test]
fn server_hash_simon() {
    let h = create_server_hash(&b"simon".to_vec(), &Vec::new(), &Vec::new()).unwrap();
    assert_eq!(h, "88e16a1019277b15d58faf0541e11910eb756f6");
}

// The pieces are concatenated in order before digesting.
#[test]
fn server_hash_concatenates_parts() {
    let a = create_server_hash(&b"No".to_vec(), &b"tc".to_vec(), &b"h".to_vec()).unwrap();
    let b = create_server_hash(&b"Notch".to_vec(), &Vec::new(), &Vec::new()).unwrap();
    assert_eq!(a, b);
}

// The rendering is minimal hex: it never starts with a zero digit
// (the simon vector above already shows a dropped leading zero).
#[test]
fn server_hash_has_no_leading_zeros() {
    for input in [&b"a"[..], b"bc", b"def", b"ghij"] {
        let h = create_server_hash(&input.to_vec(), &Vec::new(), &Vec::new()).unwrap();
        assert!(!h.starts_with('0'));
        assert!(!h.starts_with("-0"));
    }
}
