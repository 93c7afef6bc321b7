use erqol::debug_points::{block_to_grid, format_block_id, PointSession};
use erqol::esd::{MSGBND_EVENT_TEXT_FOR_TALK, MSGBND_PLACE_NAME};
use erqol::log::log;
use erqol::messages::{encode_message_text, encode_utf16, MessageIdAllocator, MessageRegistry, MESSAGE_CAPACITY, MSG_ID_BASE};
use erqol::text::{
    decimal_chars, format_i32_chars, join_lines_chars, parse_i32_chars, split_lines_chars, split_once_chars,
    str_chars, string_from_chars, to_ascii_lowercase, trim_chars,
};

fn chars(s: &str) -> Vec<char> {
    s.chars().collect()
}

fn text(v: &[char]) -> String {
    v.iter().collect()
}

#[test]
fn allocator_counts_down_from_base() {
    let mut a = MessageIdAllocator::new();
    assert_eq!(a.next, MSG_ID_BASE);
    assert_eq!(a.alloc_message_id(), 69_990_100);
    assert_eq!(a.alloc_message_id(), 69_990_099);
    let base = a.alloc_message_block(3);
    assert_eq!(base, 69_990_096);
    assert_eq!(a.next, 69_990_095);
    assert_eq!(a.alloc_message_id(), 69_990_095);
}

#[test]
fn allocator_wraps_like_fetch_sub() {
    let mut a = MessageIdAllocator { next: i32::MIN };
    assert_eq!(a.alloc_message_id(), i32::MIN);
    assert_eq!(a.next, i32::MAX);
}

#[test]
fn utf16_of_ascii_and_astral() {
    assert_eq!(encode_utf16("Ab"), vec![0x41, 0x62]);
    assert_eq!(encode_utf16("é"), vec![0xE9]);
    assert_eq!(encode_utf16("😀"), vec![0xD83D, 0xDE00]);
    assert_eq!(encode_utf16(""), Vec::<u16>::new());
}

#[test]
fn message_buffer_is_padded_and_terminated() {
    let b = encode_message_text("Hi");
    assert_eq!(b.len(), MESSAGE_CAPACITY);
    assert_eq!(&b[..3], &[0x48, 0x69, 0]);
    assert!(b[3..].iter().all(|&u| u == 0));
    let long: String = std::iter::repeat('x').take(200).collect();
    let b = encode_message_text(&long);
    assert_eq!(b.len(), 201);
    assert_eq!(b[200], 0);
}

#[test]
fn lookup_serves_first_registration() {
    let mut r = MessageRegistry::new();
    r.register_message(5, "first");
    r.register_message(5, "second");
    r.register_message_in_bnd(MSGBND_PLACE_NAME, 5, "place");
    let t = r.lookup(MSGBND_EVENT_TEXT_FOR_TALK, 5).unwrap();
    assert_eq!(&t[..6], &encode_utf16("first").iter().copied().chain([0]).collect::<Vec<u16>>()[..]);
    let p = r.lookup(MSGBND_PLACE_NAME, 5).unwrap();
    assert_eq!(&p[..5], &encode_utf16("place")[..]);
    assert!(r.lookup(MSGBND_PLACE_NAME, 6).is_none());
}

#[test]
fn update_rewrites_in_place_or_grows() {
    let mut r = MessageRegistry::new();
    r.register_message(9, "Dungeon Warp: On");
    r.update_message(9, "Off");
    let t = r.lookup(MSGBND_EVENT_TEXT_FOR_TALK, 9).unwrap();
    assert_eq!(t.len(), MESSAGE_CAPACITY);
    assert_eq!(&t[..4], &[0x4F, 0x66, 0x66, 0]);
    let long: String = std::iter::repeat('y').take(300).collect();
    r.update_message(9, &long);
    let t = r.lookup(MSGBND_EVENT_TEXT_FOR_TALK, 9).unwrap();
    assert_eq!(t.len(), 301);
    r.update_message(10, "nothing registered");
    assert!(r.lookup(MSGBND_EVENT_TEXT_FOR_TALK, 10).is_none());
    assert_eq!(r.entries.len(), 1);
}

#[test]
fn log_line_ends_with_newline() {
    assert_eq!(log("config: loaded"), "config: loaded\n");
    assert_eq!(log(""), "\n");
}

#[test]
fn text_helpers() {
    assert_eq!(text(&trim_chars(&chars("  a b \t"))), "a b");
    assert_eq!(text(&to_ascii_lowercase(&chars("PoSTure"))), "posture");
    let (k, v) = split_once_chars(&chars("a = b = c"), '=').unwrap();
    assert_eq!(text(&k), "a ");
    assert_eq!(text(&v), " b = c");
    assert!(split_once_chars(&chars("abc"), '=').is_none());
    assert_eq!(text(&decimal_chars(0)), "0");
    assert_eq!(text(&decimal_chars(18_446_744_073_709_551_615)), "18446744073709551615");
    assert_eq!(text(&format_i32_chars(i32::MIN)), "-2147483648");
    assert_eq!(text(&format_i32_chars(42)), "42");
    assert_eq!(parse_i32_chars(&chars("-17")), Some(-17));
    assert_eq!(parse_i32_chars(&chars("+5")), Some(5));
    assert_eq!(parse_i32_chars(&chars("-")), None);
    assert_eq!(parse_i32_chars(&chars("12a")), None);
    assert_eq!(parse_i32_chars(&chars("2147483647")), Some(i32::MAX));
    assert_eq!(parse_i32_chars(&chars("2147483648")), None);
}

#[test]
fn lines_split_and_join() {
    let ls = split_lines_chars(&chars("a\nbc\n\nd"));
    let got: Vec<String> = ls.iter().map(|l| text(l)).collect();
    assert_eq!(got, vec!["a", "bc", "", "d"]);
    assert_eq!(text(&join_lines_chars(&ls)), "a\nbc\n\nd\n");
}

#[test]
fn str_and_string_conversions() {
    assert_eq!(str_chars("héllo"), vec!['h', 'é', 'l', 'l', 'o']);
    assert_eq!(string_from_chars(&['o', 'k']), "ok");
}

#[test]
fn block_id_fields_and_text() {
    let id = i32::from_be_bytes([61, 57, 39, 3]);
    assert_eq!(block_to_grid(id), (61, 57, 39));
    assert_eq!(format_block_id(id), "m61_57_39_03");
    assert_eq!(format_block_id(i32::from_be_bytes([10, 0, 0, 0])), "m10_00_00_00");
    assert_eq!(format_block_id(-1), "m255_255_255_255");
}

#[test]
fn point_notes_count_per_session() {
    let mut s = PointSession::new();
    assert_eq!(s.next_note("Point"), "Point 1");
    assert_eq!(s.next_note("Point"), "Point 2");
    assert_eq!(s.next_note("Cave"), "Cave 3");
    assert_eq!(s.count, 3);
}
