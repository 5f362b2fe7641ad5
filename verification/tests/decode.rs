use utf8_decoder::Utf8Decoder;
use utf8_decoder::REPLACEMENT;

fn decode_batch(bytes: &[u8]) -> Option<String> {
    let mut decoder = Utf8Decoder::new(bytes.len());
    decoder.write_bytes(bytes);
    decoder.get_string()
}

fn decode_one_by_one(bytes: &[u8]) -> Option<String> {
    let mut decoder = Utf8Decoder::new(0);
    for byte in bytes {
        assert!(decoder.write_byte(byte));
    }
    decoder.get_string()
}

#[test]
fn decode_utf8() {
    let inputs = [
        (b"Lorem ipsum".to_vec(), "Lorem ipsum"),
        (b"Th\xc3\xads \xc3\xads v\xc3\xa1l\xc3\xadd \xc3\x9aTF8".to_vec(), "Thís ís válíd ÚTF8"),
        (b"\xe3\x83\x8f\xe3\x83\xad\xe3\x83\xbc\xe3\x83\xbb\xe3\x83\xaf\xe3\x83\xbc\xe3\x83\xab\xe3\x83\x89".to_vec(), "ハロー・ワールド"),
        (b"\xec\x95\x88\xeb\x85\x95\xed\x95\x98\xec\x84\xb8\xec\x9a\x94 \xec\x84\xb8\xea\xb3\x84".to_vec(), "안녕하세요 세계"),
        (b"love: \xe2\x9d\xa4\xef\xb8\x8f".to_vec(), "love: ❤️"),
        (b"\xec \x95\x88 \xeb\x85\x95 \xed\x95\x98\xec\x84\xb8 \xec\x9a\x94 \xec\x84\xb8\xea\xb3 \x84".to_vec(), "정� 녕 하세 요 세고�"),
    ];

    for input in inputs {
        let mut parser = Utf8Decoder::new(10);
        parser.write_bytes(&input.0);

        assert_eq!(parser.get_string().unwrap(), input.1);
    }
}

#[test]
fn ascii_is_copied() {
    assert_eq!(decode_batch(&[0x4C, 0x6F, 0x72, 0x65, 0x6D]).unwrap(), "Lorem");
    assert_eq!(decode_batch(&[0x00]).unwrap(), "\u{0}");
    assert_eq!(decode_batch(&[0x7F]).unwrap(), "\u{7F}");
}

#[test]
fn two_byte_sequence() {
    assert_eq!(decode_batch(&[0xC3, 0xAD]).unwrap(), "í");
    assert_eq!(decode_batch(&[0xC2, 0x80]).unwrap(), "\u{80}");
    assert_eq!(decode_batch(&[0xDF, 0xBF]).unwrap(), "\u{7FF}");
}

#[test]
fn three_byte_sequence() {
    assert_eq!(decode_batch(&[0xE3, 0x83, 0x8F]).unwrap(), "ハ");
    assert_eq!(decode_batch(&[0xE0, 0xA0, 0x80]).unwrap(), "\u{800}");
    assert_eq!(decode_batch(&[0xEF, 0xBF, 0xBF]).unwrap(), "\u{FFFF}");
}

#[test]
fn four_byte_sequence() {
    assert_eq!(decode_batch(&[0xF0, 0x9F, 0x98, 0x80]).unwrap(), "\u{1F600}");
    assert_eq!(decode_batch(&[0xF0, 0x90, 0x80, 0x80]).unwrap(), "\u{10000}");
}

#[test]
fn top_of_range_decodes() {
    assert_eq!(decode_batch(&[0xF4, 0x8F, 0xBF, 0xBF]).unwrap(), "\u{10FFFF}");
}

#[test]
fn above_range_is_replaced_after_four_bytes() {
    let mut decoder = Utf8Decoder::new(4);
    decoder.write_bytes(&[0xF4, 0x90, 0x80]);
    assert_eq!(decoder.get_string(), None);
    decoder.write_byte(&0x80);
    assert_eq!(decoder.get_string().unwrap(), "\u{FFFD}");
    assert_eq!(decode_batch(&[0xF4, 0xBF, 0xBF, 0xBF, 0x41]).unwrap(), "\u{FFFD}A");
}

#[test]
fn surrogate_is_replaced() {
    assert_eq!(decode_batch(&[0xED, 0xA0, 0x80]).unwrap(), "\u{FFFD}");
    assert_eq!(decode_batch(&[0xED, 0xBF, 0xBF]).unwrap(), "\u{FFFD}");
    assert_eq!(decode_batch(&[0xED, 0x9F, 0xBF]).unwrap(), "\u{D7FF}");
    assert_eq!(decode_batch(&[0xEE, 0x80, 0x80]).unwrap(), "\u{E000}");
}

#[test]
fn lead_above_f4_is_replaced_at_once() {
    for lead in 0xF5..=0xFFu8 {
        let mut decoder = Utf8Decoder::new(0);
        decoder.write_byte(&lead);
        assert_eq!(decoder.get_string().unwrap(), "\u{FFFD}");
        decoder.write_bytes(&[lead, 0x80, 0x41, 0xC3, 0xAD]);
        assert_eq!(decoder.get_string().unwrap(), "\u{FFFD}\u{FFFD}Aí");
    }
}

#[test]
fn stray_continuation_is_replaced_at_once() {
    for byte in 0x80..=0xBFu8 {
        let mut decoder = Utf8Decoder::new(0);
        decoder.write_byte(&byte);
        assert_eq!(decoder.get_string().unwrap(), "\u{FFFD}");
        decoder.write_bytes(&[byte, 0xE3, 0x83, 0x8F]);
        assert_eq!(decoder.get_string().unwrap(), "\u{FFFD}ハ");
    }
}

#[test]
fn replacement_constant() {
    assert_eq!(REPLACEMENT, '\u{FFFD}');
    assert_eq!(REPLACEMENT, std::char::REPLACEMENT_CHARACTER);
}

#[test]
fn byte_after_lead_gives_its_low_bits() {
    let mut decoder = Utf8Decoder::new(0);
    decoder.write_bytes(&[0xEC, 0x20]);
    assert_eq!(decoder.get_string(), None);
    decoder.write_byte(&0x95);
    assert_eq!(decoder.get_string().unwrap(), "\u{C815}");
    assert_eq!(decode_batch(&[0xEC, 0x20, 0x20]).unwrap(), "\u{C820}");
    assert_eq!(decode_batch(&[0xC3, 0x2D]).unwrap(), "í");
    assert_eq!(decode_batch(&[0xC3, 0xED]).unwrap(), "í");
}

#[test]
fn overlong_form_yields_its_value() {
    assert_eq!(decode_batch(&[0xC0, 0x80]).unwrap(), "\u{0}");
    assert_eq!(decode_batch(&[0xC1, 0xBF]).unwrap(), "\u{7F}");
    assert_eq!(decode_batch(&[0xE0, 0x80, 0xAF]).unwrap(), "/");
    assert_eq!(decode_batch(&[0xF0, 0x80, 0x81, 0x81]).unwrap(), "A");
}

#[test]
fn unfinished_sequence_yields_nothing() {
    assert_eq!(decode_batch(&[]), None);
    assert_eq!(decode_batch(&[0xC3]), None);
    assert_eq!(decode_batch(&[0xE3, 0x83]), None);
    assert_eq!(decode_batch(&[0xF0, 0x9F, 0x98]), None);
    assert_eq!(decode_batch(&[0x41, 0xF0, 0x9F, 0x98]).unwrap(), "A");
}

#[test]
fn one_by_one_equals_batch() {
    let inputs: [&[u8]; 6] = [
        b"Lorem ipsum",
        b"Th\xc3\xads \xc3\xads v\xc3\xa1l\xc3\xadd \xc3\x9aTF8",
        b"\xe3\x83\x8f\xe3\x83\xad\xe3\x83\xbc",
        b"\xf0\x9f\x98\x80 and \xf4\x8f\xbf\xbf",
        b"\xec \x95\x88 \xeb\x85\x95 \xff\xfe\x80",
        b"",
    ];
    for input in inputs {
        assert_eq!(decode_one_by_one(input), decode_batch(input));
    }
}

#[test]
fn input_may_be_cut_anywhere() {
    let input = "a\u{ED}\u{30CF}\u{1F600}z".as_bytes();
    for cut in 0..=input.len() {
        let mut decoder = Utf8Decoder::new(0);
        decoder.write_bytes(&input[..cut]);
        decoder.write_bytes(&input[cut..]);
        assert_eq!(decoder.get_string().unwrap(), "a\u{ED}\u{30CF}\u{1F600}z");
    }
}

#[test]
fn take_between_bytes_of_a_character() {
    let input = "a\u{ED}\u{30CF}\u{1F600}z".as_bytes();
    for cut in 0..=input.len() {
        let mut decoder = Utf8Decoder::new(0);
        decoder.write_bytes(&input[..cut]);
        let mut text = decoder.get_string().unwrap_or_default();
        decoder.write_bytes(&input[cut..]);
        text.push_str(&decoder.get_string().unwrap_or_default());
        assert_eq!(text, "a\u{ED}\u{30CF}\u{1F600}z");
    }
}

#[test]
fn encoded_text_round_trips() {
    let texts = [
        "",
        "Lorem ipsum",
        "Thís ís válíd ÚTF8",
        "ハロー・ワールド",
        "안녕하세요 세계",
        "love: ❤️",
        "\u{0}\u{7F}\u{80}\u{7FF}\u{800}\u{D7FF}\u{E000}\u{FFFD}\u{FFFF}\u{10000}\u{10FFFF}",
    ];
    for text in texts {
        let decoded = decode_batch(text.as_bytes()).unwrap_or_default();
        assert_eq!(decoded, text);
    }
}

#[test]
fn every_scalar_value_round_trips() {
    let mut decoder = Utf8Decoder::new(1);
    let mut buffer = [0u8; 4];
    for value in 0..=0x10FFFFu32 {
        if let Some(c) = char::from_u32(value) {
            decoder.write_bytes(c.encode_utf8(&mut buffer).as_bytes());
            let text = decoder.get_string().unwrap();
            let mut chars = text.chars();
            assert_eq!(chars.next(), Some(c));
            assert_eq!(chars.next(), None);
        }
    }
}

#[test]
fn second_take_finds_nothing() {
    let mut decoder = Utf8Decoder::new(8);
    decoder.write_bytes(b"text");
    assert_eq!(decoder.get_string().unwrap(), "text");
    assert_eq!(decoder.get_string(), None);
    assert_eq!(decoder.get_string(), None);
    decoder.write_bytes(b"more");
    assert_eq!(decoder.get_string().unwrap(), "more");
    assert_eq!(decoder.get_string(), None);
}

#[test]
fn fresh_decoder_holds_nothing() {
    let mut decoder = Utf8Decoder::new(16);
    assert_eq!(decoder.get_string(), None);
    assert!(decoder.get_bytes().is_none());
}

#[test]
fn no_binary_output() {
    let mut decoder = Utf8Decoder::new(4);
    assert!(decoder.get_bytes().is_none());
    decoder.write_bytes(b"ab\xc3");
    assert!(decoder.get_bytes().is_none());
    decoder.write_byte(&0xAD);
    assert!(decoder.get_bytes().is_none());
    assert_eq!(decoder.get_string().unwrap(), "abí");
}

#[test]
fn every_byte_is_welcome() {
    let mut decoder = Utf8Decoder::new(0);
    for round in 0..4 {
        for byte in 0..=0xFFu8 {
            assert!(decoder.write_byte(&byte), "round {} byte {}", round, byte);
        }
    }
    decoder.write_bytes(&[0xFF, 0xFE, 0xFD]);
    assert!(decoder.write_byte(&0x41));
}

#[test]
fn growth_keeps_every_character() {
    let input = vec![b'x'; 10_000];
    let mut decoder = Utf8Decoder::new(0);
    decoder.write_bytes(&input);
    let text = decoder.get_string().unwrap();
    assert_eq!(text.len(), 10_000);
    assert!(text.bytes().all(|b| b == b'x'));

    let mut decoder = Utf8Decoder::new(0);
    for i in 0..10_000u32 {
        decoder.write_byte(&(b'a' + (i % 26) as u8));
    }
    let text = decoder.get_string().unwrap();
    assert_eq!(text.chars().count(), 10_000);
    for (i, c) in text.chars().enumerate() {
        assert_eq!(c, (b'a' + (i % 26) as u8) as char);
    }
}

#[test]
fn boxed_decoder_decodes() {
    let mut decoder = Utf8Decoder::get_utf8(10);
    assert_eq!(decoder.get_string(), None);
    decoder.write_bytes(b"\xe3\x83\x8f\xe3\x83\xad\xe3\x83\xbc");
    assert_eq!(decoder.get_string().unwrap(), "ハロー");
}
