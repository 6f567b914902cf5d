use serial_unit_testing::error::Error;
use serial_unit_testing::utils::{
    add_newline, byte_position_of_char, bytes_from_binary_string, bytes_from_decimal_string,
    bytes_from_hex_string, bytes_from_octal_string, bytes_from_radix_string, char_count,
    escape_text, get_bool, get_format_name, get_newline_format_name, get_next_format,
    get_next_newline_format, insert_char, radix_print_text, radix_string, remove_char,
    NewlineFormat, TextFormat,
};

#[test]
fn format_names() {
    assert_eq!(get_format_name(&TextFormat::Text), "Text");
    assert_eq!(get_format_name(&TextFormat::Binary), "Binary");
    assert_eq!(get_format_name(&TextFormat::Octal), "Octal");
    assert_eq!(get_format_name(&TextFormat::Decimal), "Decimal");
    assert_eq!(get_format_name(&TextFormat::Hex), "Hexadecimal");
    assert_eq!(get_newline_format_name(&NewlineFormat::NoNewline), "None");
    assert_eq!(get_newline_format_name(&NewlineFormat::CarriageReturn), "Carriage return");
    assert_eq!(get_newline_format_name(&NewlineFormat::LineFeed), "Line feed");
    assert_eq!(get_newline_format_name(&NewlineFormat::Both), "Both");
    assert_eq!(get_bool(true), "Yes");
    assert_eq!(get_bool(false), "No");
}

#[test]
fn next_format_cycles_through_all_formats() {
    let mut format = TextFormat::Text;
    let mut seen = vec![];
    for _ in 0..5 {
        seen.push(format);
        format = get_next_format(&format);
    }
    assert_eq!(format, TextFormat::Text);
    assert_eq!(
        seen,
        vec![TextFormat::Text, TextFormat::Binary, TextFormat::Octal, TextFormat::Decimal, TextFormat::Hex]
    );

    let mut newline = NewlineFormat::NoNewline;
    for _ in 0..4 {
        newline = get_next_newline_format(&newline);
    }
    assert_eq!(newline, NewlineFormat::NoNewline);
    assert_eq!(get_next_newline_format(&NewlineFormat::LineFeed), NewlineFormat::Both);
}

#[test]
fn hex_string_to_bytes() {
    assert_eq!(bytes_from_hex_string("0a5f").unwrap(), vec![0x0a, 0x5f]);
    assert_eq!(bytes_from_hex_string("0x0A 0x5F").unwrap(), vec![0x0a, 0x5f]);
    assert_eq!(bytes_from_hex_string("00FF").unwrap(), vec![0x00, 0xff]);
    assert_eq!(bytes_from_hex_string("abc").unwrap(), vec![0xab, 0x0c]);
    assert_eq!(bytes_from_hex_string("").unwrap(), Vec::<u8>::new());
    assert!(matches!(bytes_from_hex_string("0g"), Err(Error::Num(_))));
}

#[test]
fn binary_octal_decimal_strings_to_bytes() {
    // two digits make one byte in every radix
    assert_eq!(bytes_from_binary_string("0b10 11").unwrap(), vec![2, 3]);
    assert_eq!(bytes_from_octal_string("01234").unwrap(), vec![0o12, 0o34]);
    assert_eq!(bytes_from_decimal_string("013 255").unwrap(), vec![1, 32, 55]);
    assert_eq!(bytes_from_decimal_string("256").unwrap(), vec![25, 6]);
    assert!(matches!(bytes_from_decimal_string("2a"), Err(Error::Num(_))));
    assert!(matches!(bytes_from_binary_string("2"), Err(Error::Num(_))));
    assert_eq!(bytes_from_radix_string("ff00", 16).unwrap(), vec![255, 0]);
}

#[test]
fn bytes_to_radix_strings() {
    assert_eq!(radix_string(&[10, 255], &TextFormat::Hex).unwrap(), "0AFF");
    assert_eq!(radix_string(&[10], &TextFormat::Binary).unwrap(), "00001010");
    assert_eq!(radix_string(&[10], &TextFormat::Octal).unwrap(), "0012");
    assert_eq!(radix_string(&[10, 200], &TextFormat::Decimal).unwrap(), "10200");
    assert_eq!(radix_string("Hi".as_bytes(), &TextFormat::Text).unwrap(), "Hi");
    assert!(matches!(radix_string(&[0xff, 0xfe], &TextFormat::Text), Err(Error::Utf8(_))));
}

#[test]
fn hex_round_trip() {
    let bytes: Vec<u8> = (0..=255).collect();
    let text = radix_string(&bytes, &TextFormat::Hex).unwrap();
    assert_eq!(bytes_from_hex_string(&text).unwrap(), bytes);
}

#[test]
fn printed_radix_text_breaks_rows() {
    let mut row = 0u32;
    let text = radix_print_text(&[1, 2], &TextFormat::Hex, &mut row);
    assert_eq!(text, "0x01 0x02 ");
    assert_eq!(row, 2);

    let mut row = 9u32;
    let text = radix_print_text(&[3, 4], &TextFormat::Binary, &mut row);
    assert_eq!(text, "0b11 0b100 \n");
    assert_eq!(row, 0);

    let mut row = 0u32;
    let text = radix_print_text(&[8, 9], &TextFormat::Octal, &mut row);
    assert_eq!(text, "0o10 0o11 ");

    let mut row = 0u32;
    let text = radix_print_text(&[12, 7], &TextFormat::Decimal, &mut row);
    assert_eq!(text, "127");
    assert_eq!(row, 2);
}

#[test]
fn escaping_text() {
    assert_eq!(escape_text("a\\nb\\r\\t\\\"".to_string()), "a\nb\r\t\"");
    assert_eq!(escape_text("plain".to_string()), "plain");
    assert_eq!(escape_text("\\x".to_string()), "\\x");
}

#[test]
fn character_positions() {
    let text = "aäb".to_string();
    assert_eq!(char_count(&text), 3);
    assert_eq!(byte_position_of_char(&text, 0), Some(0));
    assert_eq!(byte_position_of_char(&text, 1), Some(1));
    assert_eq!(byte_position_of_char(&text, 2), Some(3));
    assert_eq!(byte_position_of_char(&text, 3), None);

    let mut s = "aäb".to_string();
    remove_char(&mut s, 1);
    assert_eq!(s, "ab");
    remove_char(&mut s, 5);
    assert_eq!(s, "ab");
    insert_char(&mut s, 1, 'ö');
    assert_eq!(s, "aöb");
    insert_char(&mut s, 3, 'x');
    assert_eq!(s, "aöb");
}

#[test]
fn newlines_in_each_format() {
    let mut s = "a".to_string();
    add_newline(&mut s, TextFormat::Text, NewlineFormat::Both);
    assert_eq!(s, "a\r\n");

    let mut s = "a".to_string();
    add_newline(&mut s, TextFormat::Hex, NewlineFormat::LineFeed);
    assert_eq!(s, "a0A");

    let mut s = String::new();
    add_newline(&mut s, TextFormat::Binary, NewlineFormat::CarriageReturn);
    assert_eq!(s, "00001101");

    let mut s = String::new();
    add_newline(&mut s, TextFormat::Octal, NewlineFormat::Both);
    assert_eq!(s, "015012");

    let mut s = String::new();
    add_newline(&mut s, TextFormat::Decimal, NewlineFormat::Both);
    assert_eq!(s, "1310");

    let mut s = "x".to_string();
    add_newline(&mut s, TextFormat::Text, NewlineFormat::NoNewline);
    assert_eq!(s, "x");
}

#[test]
fn errors_from_their_causes() {
    let io = std::io::Error::new(std::io::ErrorKind::TimedOut, "Timed out");
    assert!(matches!(Error::from(io), Error::Io(ref e) if e.kind() == std::io::ErrorKind::TimedOut));
    let num = u8::from_str_radix("zz", 16).unwrap_err();
    assert!(matches!(Error::from(num), Error::Num(_)));
    let utf8 = std::str::from_utf8(&[0xff]).unwrap_err();
    assert!(matches!(Error::from(utf8), Error::Utf8(_)));
}

#[test]
fn binary_prefix_and_spaces_are_ignored() {
    assert_eq!(bytes_from_binary_string("0b10 1 1").unwrap(), bytes_from_binary_string("1011").unwrap());
    assert_eq!(bytes_from_binary_string("0b 0 1").unwrap(), vec![1]);
    assert!(matches!(bytes_from_binary_string("0b12"), Err(Error::Num(_))));
}
