use kernel::libs::text::{parse_u64, trim};
use kernel::usr::tty::{
    color_to_hex, exec, handle_key, label_units, parse_escaped_char, parse_input,
    parse_memory_address, puts, Console, Cursor, Glyph, InputBuffer, Key, ShellAction,
    ShellMessage,
};

fn words(line: &str) -> (String, Vec<String>) {
    let (command, args) = parse_input(line.as_bytes());
    (
        String::from_utf8(command).unwrap(),
        args.into_iter().map(|a| String::from_utf8(a).unwrap()).collect(),
    )
}

#[test]
fn command_line_splits_at_blanks() {
    assert_eq!(words("echo hello world"), ("echo".into(), vec!["hello".into(), "world".into()]));
    assert_eq!(words("  memstat  "), ("memstat".into(), vec![]));
    assert_eq!(words(""), ("".into(), vec![]));
    assert_eq!(words("   "), ("".into(), vec![]));
    assert_eq!(words("a   b"), ("a".into(), vec!["b".into()]));
}

#[test]
fn command_line_keeps_quoted_words_whole() {
    assert_eq!(words("echo \"hello world\""), ("echo".into(), vec!["hello world".into()]));
    assert_eq!(words("echo 'it is \"so\"'"), ("echo".into(), vec!["it is \"so\"".into()]));
    assert_eq!(words("echo \"open"), ("echo".into(), vec!["open".into()]));
    assert_eq!(words("\"\" x"), ("".into(), vec!["x".into()]));
    assert_eq!(words("ab\"cd\"ef"), ("ab".into(), vec!["cd".into(), "ef".into()]));
    assert_eq!(words("'a b' c"), ("a b".into(), vec!["c".into()]));
}

#[test]
fn command_line_reads_escapes() {
    assert_eq!(words("echo a\\nb"), ("echo".into(), vec!["a\nb".into()]));
    assert_eq!(words("echo \"a\\tb\""), ("echo".into(), vec!["a\tb".into()]));
    assert_eq!(words("echo a\\ b"), ("echo".into(), vec!["a b".into()]));
    assert_eq!(words("echo \\\"x"), ("echo".into(), vec!["\"x".into()]));
    assert_eq!(words("echo x\\"), ("echo".into(), vec!["x".into()]));
    assert_eq!(words("\\n"), ("\n".into(), vec![]));
    assert_eq!(parse_escaped_char(b'n'), b'\n');
    assert_eq!(parse_escaped_char(b't'), b'\t');
    assert_eq!(parse_escaped_char(b'0'), 0);
    assert_eq!(parse_escaped_char(b'x'), b'x');
    assert_eq!(parse_escaped_char(b'\\'), b'\\');
}

#[test]
fn numbers_are_read_as_the_standard_library_reads_them() {
    for s in ["0", "7", "+7", "007", "18446744073709551615", "18446744073709551616", "", "+", "-1", "1a", " 1", "1 ", "++1"] {
        assert_eq!(parse_u64(s.as_bytes(), 10), s.parse::<u64>().ok(), "{:?}", s);
    }
    for s in ["0", "ff", "FF", "+fF", "ffffffffffffffff", "10000000000000000", "g", "0x1", ""] {
        assert_eq!(parse_u64(s.as_bytes(), 16), u64::from_str_radix(s, 16).ok(), "{:?}", s);
    }
    assert_eq!(parse_u64(b"101", 2), Some(5));
    assert_eq!(parse_u64(b"102", 2), None);
}

#[test]
fn memory_addresses_start_with_0x() {
    assert_eq!(parse_memory_address(b"0x1000"), Some(0x1000));
    assert_eq!(parse_memory_address(b"0xdeadBEEF"), Some(0xdead_beef));
    assert_eq!(parse_memory_address(b"1000"), None);
    assert_eq!(parse_memory_address(b"0x"), None);
    assert_eq!(parse_memory_address(b"0xg"), None);
    assert_eq!(parse_memory_address(b"0X10"), None);
    assert_eq!(parse_memory_address(b"0x10000000000000000"), None);
}

#[test]
fn trim_takes_white_space_off_both_ends() {
    assert_eq!(trim(b"  a b \t\n"), b"a b");
    assert_eq!(trim(b"a"), b"a");
    assert_eq!(trim(b" \r\n "), b"");
    assert_eq!(trim(b""), b"");
    assert_eq!(trim(b"\x0b\x0cx\x0b"), b"x");
}

#[test]
fn units_of_a_number_of_bytes() {
    assert_eq!(label_units(0), (0, "Bytes"));
    assert_eq!(label_units(1023), (1023, "Bytes"));
    assert_eq!(label_units(1024), (1, "KiB"));
    assert_eq!(label_units(1 << 20), (1, "MiB"));
    assert_eq!(label_units((7 << 30) + 5), (7, "GiB"));
}

#[test]
fn colours_of_the_escape_codes() {
    assert_eq!(color_to_hex(0), 0x000000);
    assert_eq!(color_to_hex(1), 0xCD0000);
    assert_eq!(color_to_hex(7), 0xBABABA);
    assert_eq!(color_to_hex(60), 0x555555);
    assert_eq!(color_to_hex(67), 0xFFFFFF);
    assert_eq!(color_to_hex(8), 0);
    assert_eq!(color_to_hex(255), 0);
}

#[test]
fn cursor_moves_and_wraps() {
    let mut c = Cursor::new();
    assert_eq!(c, Cursor { cx: 0, cy: 0, fg: 0xbababa, bg: 0 });
    c.move_right(3);
    c.move_right(3);
    assert_eq!((c.cx, c.cy), (2, 0));
    c.move_right(3);
    assert_eq!((c.cx, c.cy), (0, 1));
    c.move_left(3);
    assert_eq!((c.cx, c.cy), (2, 0));
    c.move_left(3);
    c.move_left(3);
    c.move_left(3);
    assert_eq!((c.cx, c.cy), (0, 0));
    c.set_pos(5, 6);
    assert_eq!((c.cx, c.cy), (5, 6));
    c.set_fg(1);
    c.set_bg(2);
    assert_eq!((c.fg, c.bg), (1, 2));
    c.set_color(3, 4);
    assert_eq!((c.fg, c.bg), (3, 4));
    c.apply_color_code(31);
    assert_eq!(c.fg, 0xCD0000);
    c.apply_color_code(44);
    assert_eq!(c.bg, 0x0000EE);
    c.apply_color_code(97);
    assert_eq!(c.fg, 0xFFFFFF);
    c.apply_color_code(100);
    assert_eq!(c.bg, 0x555555);
    c.apply_color_code(50);
    assert_eq!((c.fg, c.bg), (0xFFFFFF, 0x555555));
}

#[test]
fn puts_draws_and_follows_escape_sequences() {
    let mut c = Cursor::new();
    let drawn = puts(&mut c, b"a\0[31;44mb\nc", 80);
    assert_eq!(
        drawn,
        vec![
            Glyph { character: b'a', cx: 0, cy: 0, fg: 0xbababa, bg: 0 },
            Glyph { character: b'b', cx: 1, cy: 0, fg: 0xCD0000, bg: 0x0000EE },
            Glyph { character: b'c', cx: 0, cy: 1, fg: 0xCD0000, bg: 0x0000EE },
        ]
    );
    // the colours do not outlast the string
    assert_eq!(c, Cursor { cx: 1, cy: 1, fg: 0xbababa, bg: 0 });
}

#[test]
fn escape_sequence_that_is_cut_short_is_dropped() {
    let mut c = Cursor::new();
    let drawn = puts(&mut c, b"\0[3xy", 80);
    assert_eq!(drawn.len(), 1);
    assert_eq!(drawn[0].character, b'y');
    assert_eq!(drawn[0].fg, 0xbababa);

    let mut console = Console::new();
    assert_eq!(console.put(0, 80), None);
    assert!(console.in_escape_sequence);
    assert_eq!(console.put(b'9', 80), None);
    assert_eq!(console.put(b'[', 80), None);
    assert_eq!(console.color_code_buffer, b"");
    for b in b"999;;+32;x" {
        let _ = console.put(*b, 80);
    }
    assert!(!console.in_escape_sequence);
    assert_eq!(console.cursor.fg, 0xbababa);
    for b in b"\0[999;;32;41m" {
        let _ = console.put(*b, 80);
    }
    assert_eq!(console.cursor.fg, 0x00CD00);
    assert_eq!(console.cursor.bg, 0xCD0000);
}

#[test]
fn input_buffer_holds_the_line() {
    let mut b = InputBuffer::new();
    b.push(b'h');
    b.push(b'i');
    assert_eq!(b.as_str(), "hi");
    b.pop();
    assert_eq!(b.as_str(), "h");
    b.pop();
    b.pop();
    assert_eq!(b.as_str(), "");
    b.push(0xFF);
    assert_eq!(b.as_str(), "");
    b.clear();
    b.push(0xC3);
    b.push(0xA9);
    assert_eq!(b.as_str(), "é");
}

fn actions(line: &str) -> Vec<ShellAction> {
    exec(line.as_bytes()).actions
}

#[test]
fn shell_decides_what_to_do() {
    assert_eq!(actions(""), vec![]);
    assert_eq!(actions("  "), vec![]);
    assert_eq!(actions("memstat"), vec![ShellAction::MemStat]);
    assert_eq!(actions("memmap x"), vec![ShellAction::MemMap]);
    assert_eq!(actions("echo hi"), vec![ShellAction::Echo]);
    assert_eq!(actions("frobnicate 1 2"), vec![ShellAction::ShowInput]);
    let e = exec(b" echo 'a b' c ");
    assert_eq!(e.command, b"echo");
    assert_eq!(e.args, vec![b"a b".to_vec(), b"c".to_vec()]);
}

#[test]
fn shell_memalloc() {
    assert_eq!(actions("memalloc"), vec![ShellAction::Say(ShellMessage::AllocSizeRequired)]);
    assert_eq!(actions("memalloc --help"), vec![ShellAction::Say(ShellMessage::AllocHelp)]);
    assert_eq!(actions("memalloc -h 1 2"), vec![ShellAction::Say(ShellMessage::AllocHelp)]);
    assert_eq!(actions("memalloc 64"), vec![ShellAction::Allocate { size: 64 }]);
    assert_eq!(actions("memalloc x64"), vec![ShellAction::Say(ShellMessage::NotANumber)]);
    assert_eq!(
        actions("memalloc 64 -d 0x1000"),
        vec![ShellAction::Deallocate { address: 0x1000, size: 64 }]
    );
    assert_eq!(
        actions("memalloc 0x2000 32"),
        vec![ShellAction::Say(ShellMessage::Malformed), ShellAction::Deallocate { address: 0x2000, size: 32 }]
    );
    assert_eq!(actions("memalloc 64 -d 0xzz"), vec![ShellAction::Say(ShellMessage::NotAnAddress)]);
    assert_eq!(actions("memalloc 64 -d nope"), vec![ShellAction::Say(ShellMessage::NotANumber)]);
    assert_eq!(actions("memalloc -d --dealloc -x"), vec![ShellAction::Deallocate { address: 0, size: 0 }]);
}

#[test]
fn shell_memtest_and_poke() {
    assert_eq!(actions("memtest"), vec![ShellAction::Say(ShellMessage::TestAddressRequired)]);
    assert_eq!(actions("memtest 0x10"), vec![ShellAction::ReadWord { address: 0x10 }]);
    assert_eq!(actions("memtest 10"), vec![ShellAction::Say(ShellMessage::NotAnAddress)]);
    assert_eq!(actions("poke 0x10"), vec![ShellAction::Say(ShellMessage::PokeUsage)]);
    assert_eq!(
        actions("poke 0x10 42"),
        vec![ShellAction::Poke { address: 0x10, value: 42 }, ShellAction::ShowInput]
    );
    assert_eq!(actions("poke 0x10 4294967296"), vec![ShellAction::Say(ShellMessage::PokeNotANumber)]);
    assert_eq!(actions("poke 0x10 x"), vec![ShellAction::Say(ShellMessage::PokeNotANumber)]);
    assert_eq!(actions("poke 10 42"), vec![ShellAction::Say(ShellMessage::PokeNotAnAddress), ShellAction::ShowInput]);
}

fn key(name: &str, character: Option<u8>, printable: bool) -> Key {
    Key { name: name.as_bytes().to_vec(), character, printable }
}

#[test]
fn keys_edit_the_line() {
    let mut line = InputBuffer::new();
    let mut cursor = Cursor::new();
    let e = handle_key(&mut line, &mut cursor, &key("KeyA", Some(b'a'), true), 80);
    assert_eq!(e.drawn.len(), 1);
    assert_eq!(e.drawn[0].character, b'a');
    assert!(e.run.is_none() && !e.prompt);
    let _ = handle_key(&mut line, &mut cursor, &key("KeyB", Some(b'b'), true), 80);
    assert_eq!(line.buffer, b"ab");
    assert_eq!(cursor.cx, 2);

    let e = handle_key(&mut line, &mut cursor, &key("Backspace", None, false), 80);
    assert_eq!(line.buffer, b"a");
    assert_eq!(e.drawn, vec![Glyph { character: b' ', cx: 1, cy: 0, fg: 0xbababa, bg: 0 }]);
    assert_eq!(cursor.cx, 1);

    let _ = handle_key(&mut line, &mut cursor, &key("CurUp", None, false), 80);
    let _ = handle_key(&mut line, &mut cursor, &key("CurDown", None, false), 80);
    assert_eq!(cursor.cx, 1);
    let _ = handle_key(&mut line, &mut cursor, &key("CurLeft", None, false), 80);
    assert_eq!(cursor.cx, 0);
    let _ = handle_key(&mut line, &mut cursor, &key("CurRight", None, false), 80);
    assert_eq!(cursor.cx, 0);
    let _ = handle_key(&mut line, &mut cursor, &key("Shift", None, false), 80);
    let _ = handle_key(&mut line, &mut cursor, &key("F1", Some(b'x'), false), 80);
    assert_eq!(line.buffer, b"a");

    let e = handle_key(&mut line, &mut cursor, &key("Enter", Some(b'\n'), false), 80);
    assert_eq!(e.run, Some(b"a".to_vec()));
    assert!(e.prompt);
    assert_eq!(line.buffer, b"");
    assert_eq!((cursor.cx, cursor.cy), (0, 1));

    let _ = handle_key(&mut line, &mut cursor, &key("KeyC", Some(b'c'), true), 80);
    let e = handle_key(&mut line, &mut cursor, &key("KeyC", Some(3), false), 80);
    assert_eq!(e.drawn.iter().map(|g| g.character).collect::<Vec<u8>>(), b"^C");
    assert!(e.run.is_none() && e.prompt);
    assert_eq!(line.buffer, b"");
    let e = handle_key(&mut line, &mut cursor, &key("Backspace", None, false), 80);
    assert!(e.drawn.is_empty());
}
