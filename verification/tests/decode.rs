use aether_gui::aether::decode::decode_step;

fn step(carry: &mut Vec<u8>, chunk: &[u8]) -> String {
    let mut out = String::new();
    decode_step(carry, chunk, &mut out);
    out
}

/// The text of the bytes, by the standard library, and how many of them it
/// takes: all but a character that is cut off at the end.
fn expected(bytes: &[u8]) -> (String, usize) {
    let mut text = String::new();
    let mut used = 0;
    loop {
        match std::str::from_utf8(&bytes[used..]) {
            Ok(s) => {
                text.push_str(s);
                return (text, bytes.len());
            }
            Err(e) => {
                let good = used + e.valid_up_to();
                text.push_str(std::str::from_utf8(&bytes[used..good]).unwrap());
                match e.error_len() {
                    Some(bad) => {
                        text.push('\u{fffd}');
                        used = good + bad;
                    }
                    None => return (text, good),
                }
            }
        }
    }
}

fn check(bytes: &[u8]) {
    let mut carry = Vec::new();
    let text = step(&mut carry, bytes);
    let (want, used) = expected(bytes);
    assert_eq!(text, want, "{bytes:?}");
    assert_eq!(carry, &bytes[used..], "{bytes:?}");
}

#[test]
fn every_pair_of_bytes_decodes_as_in_the_standard_library() {
    for a in 0..=255u8 {
        check(&[a]);
        for b in 0..=255u8 {
            check(&[a, b]);
        }
    }
}

#[test]
fn triples_and_quadruples_decode_as_in_the_standard_library() {
    let edges = [
        0x00u8, 0x41, 0x7f, 0x80, 0x8f, 0x90, 0x9f, 0xa0, 0xbf, 0xc0, 0xc1, 0xc2, 0xdf, 0xe0, 0xe1,
        0xec, 0xed, 0xee, 0xef, 0xf0, 0xf1, 0xf3, 0xf4, 0xf5, 0xff,
    ];
    for a in edges {
        for b in edges {
            for c in edges {
                check(&[a, b, c]);
                for d in edges {
                    check(&[a, b, c, d]);
                }
            }
        }
    }
}

#[test]
fn every_character_decodes_to_itself() {
    for c in (0..=0x10ffffu32).filter_map(char::from_u32) {
        let mut bytes = [0u8; 4];
        let encoded = c.encode_utf8(&mut bytes).as_bytes().to_vec();
        let mut carry = Vec::new();
        assert_eq!(step(&mut carry, &encoded), c.to_string());
        assert!(carry.is_empty());
    }
}

#[test]
fn text_comes_through_whole_wherever_it_is_cut() {
    let text = "╭─ سلام ─╮ 𝄞 é\n";
    let bytes = text.as_bytes();
    for a in 0..=bytes.len() {
        for b in a..=bytes.len() {
            let mut carry = Vec::new();
            let mut out = step(&mut carry, &bytes[..a]);
            out.push_str(&step(&mut carry, &bytes[a..b]));
            out.push_str(&step(&mut carry, &bytes[b..]));
            assert_eq!(out, text);
            assert!(carry.is_empty());
        }
    }
}

#[test]
fn an_unfinished_character_is_carried_over() {
    let mut carry = Vec::new();
    assert_eq!(step(&mut carry, &[b'a', 0xf0, 0x9d]), "a");
    assert_eq!(carry, [0xf0, 0x9d]);
    assert_eq!(step(&mut carry, &[0x84]), "");
    assert_eq!(carry, [0xf0, 0x9d, 0x84]);
    assert_eq!(step(&mut carry, &[0x9e, b'b']), "𝄞b");
    assert!(carry.is_empty());
}

#[test]
fn broken_bytes_are_replaced_and_the_rest_is_decoded_at_once() {
    let mut carry = Vec::new();
    assert_eq!(step(&mut carry, b"a\xffb\xfec"), "a\u{fffd}b\u{fffd}c");
    assert!(carry.is_empty());
    assert_eq!(step(&mut carry, b"\xe2\x82x\xf0\x9f"), "\u{fffd}x");
    assert_eq!(carry, [0xf0, 0x9f]);
    assert_eq!(step(&mut carry, b"!"), "\u{fffd}!");
    assert!(carry.is_empty());
}

#[test]
fn a_burst_of_broken_bytes_leaves_little_behind() {
    let mut carry = Vec::new();
    let text = step(&mut carry, &[0xffu8; 8192]);
    assert_eq!(text.chars().count(), 8192);
    assert!(carry.is_empty());
    for chunk in [[0xf0u8, 0x9f, 0x92], [0xf0, 0x9f, 0x92]] {
        step(&mut carry, &chunk);
        assert_eq!(carry, [0xf0, 0x9f, 0x92]);
    }
}

#[test]
fn broken_text_is_the_same_wherever_it_is_cut() {
    let bytes = b"a\xffb\xe2\x82c\xf0\x9f\x92\xa9\xc3\xc3\xa9\x80\xed\xa0\x80end";
    let (want, _) = expected(bytes);
    for a in 0..=bytes.len() {
        for b in a..=bytes.len() {
            let mut carry = Vec::new();
            let mut out = step(&mut carry, &bytes[..a]);
            out.push_str(&step(&mut carry, &bytes[a..b]));
            out.push_str(&step(&mut carry, &bytes[b..]));
            assert_eq!(out, want);
            assert!(carry.is_empty());
        }
    }
}
