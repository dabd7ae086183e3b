use flowerchat::emojis::{fnv1a_hash, EMOJIS, EMOJI_COUNT};
use flowerchat::utils::{
    append_repeated, bytes_to_emoji, bytes_to_shortname, hash_to_emoji, hash_to_shortname,
    make_table,
};

fn row<const N: usize>(cells: [&str; N]) -> [String; N] {
    cells.map(String::from)
}

#[test]
fn fnv1a_known_values() {
    assert_eq!(fnv1a_hash(b""), 0xcbf29ce484222325);
    assert_eq!(fnv1a_hash(b"a"), 0xaf63dc4c8601ec8c);
    assert_eq!(fnv1a_hash(b"foobar"), 0x85944171f73967e8);
}

#[test]
fn fnv1a_emojis() {
    assert_eq!(EMOJI_COUNT, 182);
    assert_eq!(EMOJIS.len(), 182);
    assert_eq!(EMOJIS[0], "\u{1f347}");
    assert_eq!(EMOJIS[22], "\u{1f336}\u{fe0f}");
    assert_eq!(EMOJIS[181], "\u{1f9a6}");
    assert_eq!(flowerchat::emojis::bytes_to_emoji(b""), "\u{1f367}");
    assert_eq!(flowerchat::emojis::bytes_to_emoji(b"a"), "\u{1f9ab}");
    assert_eq!(flowerchat::emojis::bytes_to_emoji(b"foobar"), "\u{1f33b}");
}

#[test]
fn checksum_emojis_and_shortnames() {
    assert_eq!(bytes_to_emoji(b""), "\u{1f347}");
    assert_eq!(bytes_to_emoji(b"123456789"), "\u{1f36a}");
    assert_eq!(bytes_to_emoji(b"hello"), "\u{1f404}");
    assert_eq!(bytes_to_shortname(b""), "AAAA");
    assert_eq!(bytes_to_shortname(b"123456789"), "CV2X");
    assert_eq!(bytes_to_shortname(b"hello"), "0WQS");
}

#[test]
fn names_of_given_checksums() {
    assert_eq!(hash_to_emoji(0), "\u{1f347}");
    assert_eq!(hash_to_emoji(181), "\u{1f9a6}");
    assert_eq!(hash_to_emoji(182), "\u{1f347}");
    assert_eq!(hash_to_emoji(0xcbf43926), "\u{1f36a}");
    assert_eq!(hash_to_shortname(0), "AAAA");
    assert_eq!(hash_to_shortname(0xcbf43926), "CV2X");
    assert_eq!(hash_to_shortname(0x0000_0023), "9AAA");
    assert_eq!(hash_to_shortname(0x0000_0024), "AAAA");
    assert_eq!(hash_to_shortname(0x1a00_0001), "BAA0");
    assert_eq!(hash_to_shortname(0xffff_ffff), "DDDD");
}

#[test]
fn text_is_repeated() {
    let mut out = String::from("x");
    append_repeated(&mut out, "ab", 3);
    assert_eq!(out, "xababab");
    append_repeated(&mut out, "ab", 0);
    assert_eq!(out, "xababab");
}

#[test]
fn table_with_rows() {
    let header = row(["id", "name"]);
    let rows = vec![row(["1", "general"]), row(["22", "x"])];
    let expected = "\
+----+---------+
| id | name    |
+----+---------+
| 1  | general |
| 22 | x       |
+----+---------+";
    assert_eq!(make_table(&header, &rows), expected);
}

#[test]
fn table_without_rows_or_columns() {
    let header = row(["a"]);
    let rows: Vec<[String; 1]> = Vec::new();
    assert_eq!(make_table(&header, &rows), "+---+\n| a |\n+---+\n+---+");
    let header = row([""]);
    let rows = vec![row([""])];
    assert_eq!(make_table(&header, &rows), "+---+\n|   |\n+---+\n|   |\n+---+");
    let header: [String; 0] = [];
    let rows: Vec<[String; 0]> = vec![[]];
    assert_eq!(make_table(&header, &rows), "");
}

#[test]
fn table_measures_bytes() {
    let header = row(["\u{e9}"]);
    let rows = vec![row(["abc"])];
    assert_eq!(make_table(&header, &rows), "+-----+\n| \u{e9}  |\n+-----+\n| abc |\n+-----+");
}
