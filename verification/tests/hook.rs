use memdbg::{dbg_impl, Buf, Mode};

#[test]
fn buf_renders_itself_as_a_dump() {
    let buf = Buf([0x41, 0x20, 0x68, 0x20, 0x90, 0x00]);
    let mut out = String::new();
    buf.fmt(&mut out, 4, 0);
    assert_eq!(out, format!("\n | 41 20 68 20 | 90 00{} | A.h...", " ".repeat(90)));
    assert_eq!(out, memdbg::dump::format(&buf.0, 4, 0));
}

#[test]
fn buf_with_a_prefix() {
    let buf = Buf(*b"hi!");
    let mut out = String::from("[");
    buf.fmt(&mut out, 8, 3);
    out.push(']');
    assert_eq!(out, "[ 68 69 21 |hi!]");
}

#[test]
fn empty_buf_renders_as_nothing() {
    let buf: Buf<0> = Buf([]);
    let mut out = String::new();
    buf.fmt(&mut out, 8, 0);
    assert_eq!(out, "");
}

#[test]
fn buf_compares_by_its_bytes() {
    assert!(Buf([1u8, 2, 3]) == Buf([1u8, 2, 3]));
    assert!(Buf([1u8, 2, 3]) != Buf([1u8, 2, 4]));
    assert!(Buf([1u8, 2, 3]) < Buf([1u8, 2, 4]));
    assert!(Buf([2u8, 0, 0]) > Buf([1u8, 9, 9]));
    let buf = Buf([7u8; 5]);
    let copy = buf.clone();
    assert!(buf == copy);
    assert_eq!(copy.0, [7u8; 5]);
}

#[test]
fn name_only_writes_the_name() {
    let value = Buf([0xDE, 0xAD, 0xBE, 0xEF]);
    let mut out = String::new();
    dbg_impl(&mut out, Mode::NameOnly, &value, "Packet", 8, 0);
    assert_eq!(out, "Packet");
}

#[test]
fn name_only_does_not_look_at_the_bytes() {
    let mut first = String::new();
    dbg_impl(&mut first, Mode::NameOnly, &Buf([0u8; 16]), "Header", 8, 0);
    let mut second = String::new();
    dbg_impl(&mut second, Mode::NameOnly, &Buf([0xFFu8; 16]), "Header", 8, 0);
    let mut third = String::new();
    dbg_impl(&mut third, Mode::NameOnly, &Buf([0x41u8; 3]), "Header", 4, 2);
    assert_eq!(first, "Header");
    assert_eq!(second, "Header");
    assert_eq!(third, "Header");
}

#[test]
fn name_only_does_not_look_at_the_alignment() {
    let mut out = String::new();
    dbg_impl(&mut out, Mode::NameOnly, &Buf([1u8, 2]), "Pair", 0, 0);
    assert_eq!(out, "Pair");
    let mut out = String::new();
    dbg_impl(&mut out, Mode::NameOnly, &Buf([1u8, 2]), "Pair", 1000, 9);
    assert_eq!(out, "Pair");
}

#[test]
fn name_only_with_an_empty_name() {
    let mut out = String::from("x");
    dbg_impl(&mut out, Mode::NameOnly, &Buf([1u8]), "", 8, 0);
    assert_eq!(out, "x");
}

#[test]
fn name_only_keeps_a_name_that_is_not_ascii() {
    let mut out = String::new();
    dbg_impl(&mut out, Mode::NameOnly, &Buf([1u8]), "Größe", 8, 0);
    assert_eq!(out, "Größe");
}

#[test]
fn full_dump_is_the_dump_of_the_bytes() {
    let value = Buf(*b"0123456789");
    let mut out = String::new();
    dbg_impl(&mut out, Mode::FullDump, &value, "Digits", 8, 2);
    assert_eq!(out, memdbg::dump::format(&value.0, 8, 2));
    assert_eq!(
        out,
        format!(" 30 31 |01\n | 32 33 34 35 36 37 38 39{} | 23456789", " ".repeat(78))
    );
}

#[test]
fn disabled_writes_nothing() {
    let mut out = String::new();
    dbg_impl(&mut out, Mode::Disabled, &Buf([1u8, 2, 3]), "Triple", 8, 0);
    assert_eq!(out, "");
    let mut out = String::from("kept");
    dbg_impl(&mut out, Mode::Disabled, &Buf([1u8, 2, 3]), "Triple", 0, 0);
    assert_eq!(out, "kept");
}

#[test]
fn hook_appends_to_what_is_there() {
    let mut out = String::from("a=");
    dbg_impl(&mut out, Mode::NameOnly, &Buf([0u8; 2]), "A", 8, 0);
    out.push_str(", b=");
    dbg_impl(&mut out, Mode::FullDump, &Buf([0x62u8]), "B", 8, 1);
    assert_eq!(out, "a=A, b= 62 |b");
}
