//! Short human-friendly renderings: an emoji and a short name for a byte
//! string, and plain-text tables.

use vstd::prelude::*;
use vstd::string::StringExecFns;
use vstd::utf8::encode_utf8;
use crate::emojis::{EMOJIS, EMOJI_COUNT};

verus! {

/// The number of characters that a short name draws from.
pub const SHORTNAME_CHAR_COUNT: usize = 36;

/// The characters of short names: capital letters, then digits.
pub const SHORTNAME_CHARS: [&'static str; 36] = [
    "A", "B", "C", "D", "E", "F", "G", "H", "I", "J",
    "K", "L", "M", "N", "O", "P", "Q", "R", "S", "T",
    "U", "V", "W", "X", "Y", "Z", "0", "1", "2", "3",
    "4", "5", "6", "7", "8", "9",
];

/// The CRC-32 checksum of `bytes`.
pub uninterp spec fn crc32(bytes: Seq<u8>) -> u32;

/// Calls `crc32fast::hash`, which computes the CRC-32 checksum of a slice.
/// The contract names the checksum.
#[verifier::external_body]
pub(crate) fn crc32_hash(bytes: &[u8]) -> (r: u32)
    ensures
        r == crc32(bytes@),
{
    crc32fast::hash(bytes)
}

/// The emoji for a checksum: the one at the index that the checksum gives
/// modulo the number of emojis.
pub open spec fn emoji_of_hash(hash: u32) -> Seq<char> {
    EMOJIS@[(hash % (EMOJI_COUNT as u32)) as int]@
}

/// The byte `k` of `hash`, counted from the least significant.
pub open spec fn hash_byte(hash: u32, k: nat) -> nat {
    if k == 0 {
        (hash % 256) as nat
    } else if k == 1 {
        ((hash / 0x100) % 256) as nat
    } else if k == 2 {
        ((hash / 0x1_0000) % 256) as nat
    } else {
        ((hash / 0x100_0000) % 256) as nat
    }
}

/// The character of a short name for one byte of a checksum.
pub open spec fn shortname_char(byte: nat) -> Seq<char> {
    SHORTNAME_CHARS@[(byte % (SHORTNAME_CHAR_COUNT as nat)) as int]@
}

/// The short name for a checksum: one character for each of its four bytes,
/// the least significant first.
pub open spec fn shortname_of_hash(hash: u32) -> Seq<char> {
    shortname_char(hash_byte(hash, 0)) + shortname_char(hash_byte(hash, 1)) + shortname_char(
        hash_byte(hash, 2),
    ) + shortname_char(hash_byte(hash, 3))
}

/// The emoji for a checksum.
pub fn hash_to_emoji(hash: u32) -> (r: &'static str)
    ensures
        r@ == emoji_of_hash(hash),
{
    EMOJIS[(hash % (EMOJI_COUNT as u32)) as usize]
}

/// The short name for a checksum.
pub fn hash_to_shortname(hash: u32) -> (r: String)
    ensures
        r@ == shortname_of_hash(hash),
{
    let n: usize = SHORTNAME_CHAR_COUNT;
    let b0: usize = (hash % 256) as usize;
    let b1: usize = ((hash / 0x100) % 256) as usize;
    let b2: usize = ((hash / 0x1_0000) % 256) as usize;
    let b3: usize = ((hash / 0x100_0000) % 256) as usize;
    let mut name = String::new();
    name.append(SHORTNAME_CHARS[b0 % n]);
    name.append(SHORTNAME_CHARS[b1 % n]);
    name.append(SHORTNAME_CHARS[b2 % n]);
    name.append(SHORTNAME_CHARS[b3 % n]);
    assert(name@ =~= shortname_of_hash(hash));
    name
}

/// The emoji that stands for `bytes`: that of their CRC-32 checksum.
pub fn bytes_to_emoji(bytes: &[u8]) -> (r: &'static str)
    ensures
        r@ == emoji_of_hash(crc32(bytes@)),
{
    hash_to_emoji(crc32_hash(bytes))
}

/// The short name that stands for `bytes`: that of their CRC-32 checksum.
pub fn bytes_to_shortname(bytes: &[u8]) -> (r: String)
    ensures
        r@ == shortname_of_hash(crc32(bytes@)),
{
    hash_to_shortname(crc32_hash(bytes))
}

/// The number of bytes of the UTF-8 encoding of a text.
pub open spec fn byte_len(s: Seq<char>) -> nat {
    encode_utf8(s).len()
}

/// `s` written `n` times.
pub open spec fn repeated(s: Seq<char>, n: nat) -> Seq<char>
    decreases n,
{
    if n == 0 {
        Seq::empty()
    } else {
        repeated(s, (n - 1) as nat) + s
    }
}

/// The larger of two numbers.
pub open spec fn larger(a: nat, b: nat) -> nat {
    if a >= b {
        a
    } else {
        b
    }
}

/// The width of the column `c` of a table, as far as its header and its first
/// `k` rows ask: the byte length of the longest cell, and at least 1.
pub open spec fn column_width(
    header: Seq<Seq<char>>,
    rows: Seq<Seq<Seq<char>>>,
    c: int,
    k: nat,
) -> nat
    decreases k,
{
    if k == 0 {
        larger(1, byte_len(header[c]))
    } else {
        larger(column_width(header, rows, c, (k - 1) as nat), byte_len(rows[k - 1][c]))
    }
}

/// The widths of the first `n` columns of a table.
pub open spec fn column_widths(header: Seq<Seq<char>>, rows: Seq<Seq<Seq<char>>>, n: nat) -> Seq<nat> {
    Seq::new(n, |c: int| column_width(header, rows, c, rows.len()))
}

/// The rule over the first `n` columns: a plus sign, then for each column as
/// many dashes as it is wide and two more.
pub open spec fn rule_cells(widths: Seq<nat>, n: nat) -> Seq<char>
    decreases n,
{
    if n == 0 {
        Seq::empty()
    } else {
        rule_cells(widths, (n - 1) as nat) + "+"@ + repeated("-"@, widths[n - 1] + 2)
    }
}

/// The rule that frames a table.
pub open spec fn decorator(widths: Seq<nat>) -> Seq<char> {
    rule_cells(widths, widths.len()) + "+"@
}

/// The first `n` cells of a row: each between two spaces, padded with spaces
/// to the width of its column, and closed by a bar.
pub open spec fn row_cells(cells: Seq<Seq<char>>, widths: Seq<nat>, n: nat) -> Seq<char>
    decreases n,
{
    if n == 0 {
        Seq::empty()
    } else {
        row_cells(cells, widths, (n - 1) as nat) + " "@ + cells[n - 1] + " "@ + repeated(
            " "@,
            (widths[n - 1] - byte_len(cells[n - 1])) as nat,
        ) + "|"@
    }
}

/// The lines of the first `k` rows, each opened by a bar and closed by a line
/// feed.
pub open spec fn row_lines(rows: Seq<Seq<Seq<char>>>, widths: Seq<nat>, k: nat) -> Seq<char>
    decreases k,
{
    if k == 0 {
        Seq::empty()
    } else {
        row_lines(rows, widths, (k - 1) as nat) + "|"@ + row_cells(
            rows[k - 1],
            widths,
            widths.len(),
        ) + "\n"@
    }
}

/// The table with the given header and rows, as text: a rule, the header, a
/// rule, the rows, a rule. A table without columns is the empty text.
pub open spec fn table(header: Seq<Seq<char>>, rows: Seq<Seq<Seq<char>>>) -> Seq<char> {
    let widths = column_widths(header, rows, header.len());
    if header.len() == 0 {
        Seq::empty()
    } else {
        decorator(widths) + "\n"@ + "|"@ + row_cells(header, widths, widths.len()) + "\n"@
            + decorator(widths) + "\n"@ + row_lines(rows, widths, rows.len()) + decorator(widths)
    }
}

/// The texts of the cells of a row.
pub open spec fn cells_of<const N: usize>(row: [String; N]) -> Seq<Seq<char>> {
    row@.map_values(|s: String| s@)
}

/// The texts of the cells of some rows.
pub open spec fn rows_of<const N: usize>(rows: Seq<[String; N]>) -> Seq<Seq<Seq<char>>> {
    rows.map_values(|r: [String; N]| cells_of(r))
}

/// Appends `s` to `out`, `n` times.
pub fn append_repeated(out: &mut String, s: &str, n: usize)
    ensures
        final(out)@ == old(out)@ + repeated(s@, n as nat),
{
    let mut i: usize = 0;
    assert(out@ =~= old(out)@ + repeated(s@, 0));
    while i < n
        invariant
            0 <= i <= n,
            out@ == old(out)@ + repeated(s@, i as nat),
        decreases n - i,
    {
        out.append(s);
        i += 1;
        assert(out@ =~= old(out)@ + repeated(s@, i as nat));
    }
}

/// The width of the column `c` of a table.
fn measure_column<const N: usize>(header: &[String; N], rows: &Vec<[String; N]>, c: usize) -> (w:
    usize)
    requires
        c < N,
    ensures
        w == column_width(cells_of(*header), rows_of(rows@), c as int, rows@.len()),
{
    let mut w: usize = header[c].as_str().as_bytes().len();
    assert(cells_of(*header)[c as int] == header@[c as int]@);
    if w < 1 {
        w = 1;
    }
    let n: usize = rows.len();
    let mut k: usize = 0;
    while k < n
        invariant
            n == rows@.len(),
            c < N,
            0 <= k <= n,
            w == column_width(cells_of(*header), rows_of(rows@), c as int, k as nat),
        decreases n - k,
    {
        let len: usize = rows[k][c].as_str().as_bytes().len();
        assert(rows_of(rows@)[k as int] == cells_of(rows@[k as int]));
        assert(cells_of(rows@[k as int])[c as int] == rows@[k as int]@[c as int]@);
        if len > w {
            w = len;
        }
        k += 1;
    }
    w
}

/// Appends the cells of a row to `out`.
fn append_row_cells<const N: usize>(out: &mut String, row: &[String; N], widths: &Vec<usize>)
    requires
        widths@.len() == N,
        forall|c: int| 0 <= c < N ==> widths@[c] >= byte_len(#[trigger] cells_of(*row)[c]),
    ensures
        final(out)@ == old(out)@ + row_cells(
            cells_of(*row),
            widths@.map_values(|w: usize| w as nat),
            N as nat,
        ),
{
    let ghost cells = cells_of(*row);
    let ghost ws = widths@.map_values(|w: usize| w as nat);
    let mut c: usize = 0;
    assert(out@ =~= old(out)@ + row_cells(cells, ws, 0));
    while c < N
        invariant
            0 <= c <= N,
            widths@.len() == N,
            cells == cells_of(*row),
            ws == widths@.map_values(|w: usize| w as nat),
            forall|i: int| 0 <= i < N ==> widths@[i] >= byte_len(#[trigger] cells[i]),
            out@ == old(out)@ + row_cells(cells, ws, c as nat),
        decreases N - c,
    {
        let ghost before = out@;
        let cell = row[c].as_str();
        assert(cell@ == cells[c as int]);
        out.append(" ");
        out.append(cell);
        out.append(" ");
        append_repeated(out, " ", widths[c] - cell.as_bytes().len());
        out.append("|");
        c += 1;
        assert(out@ =~= old(out)@ + row_cells(cells, ws, c as nat));
    }
}

/// Renders a table as text: the header and the rows between rules, each
/// column as wide as its longest cell.
pub fn make_table<const N: usize>(header: &[String; N], rows: &Vec<[String; N]>) -> (r: String)
    ensures
        r@ == table(cells_of(*header), rows_of(rows@)),
{
    let mut output = String::new();
    if N == 0 {
        return output;
    }
    let ghost head = cells_of(*header);
    let ghost body = rows_of(rows@);
    let ghost goal = column_widths(head, body, N as nat);
    let mut widths: Vec<usize> = Vec::new();
    let mut c: usize = 0;
    while c < N
        invariant
            0 <= c <= N,
            head == cells_of(*header),
            body == rows_of(rows@),
            widths@.len() == c,
            forall|i: int|
                0 <= i < c ==> widths@[i] == column_width(head, body, i, body.len()),
        decreases N - c,
    {
        let w = measure_column(header, rows, c);
        widths.push(w);
        c += 1;
    }
    let ghost ws = widths@.map_values(|w: usize| w as nat);
    assert(ws =~= goal);
    let mut rule = String::new();
    let mut d: usize = 0;
    assert(rule@ =~= rule_cells(ws, 0));
    while d < N
        invariant
            0 <= d <= N,
            widths@.len() == N,
            ws == widths@.map_values(|w: usize| w as nat),
            rule@ == rule_cells(ws, d as nat),
        decreases N - d,
    {
        rule.append("+");
        append_repeated(&mut rule, "-", widths[d]);
        rule.append("-");
        rule.append("-");
        proof {
            let w = widths@[d as int] as nat;
            assert(repeated("-"@, w + 2) == repeated("-"@, w) + "-"@ + "-"@) by {
                assert(repeated("-"@, w + 2) == repeated("-"@, (w + 1) as nat) + "-"@);
                assert(repeated("-"@, (w + 1) as nat) == repeated("-"@, w) + "-"@);
            }
        }
        d += 1;
        assert(rule@ =~= rule_cells(ws, d as nat));
    }
    rule.append("+");
    assert(rule@ == decorator(ws));
    proof {
        assert forall|i: int| 0 <= i < N implies widths@[i] >= byte_len(#[trigger] head[i]) by {
            lemma_column_width_bounds(head, body, i, body.len(), 0);
            assert(ws[i] == column_width(head, body, i, body.len()));
            assert(ws[i] == widths@[i] as nat);
        }
    }
    output.append(rule.as_str());
    output.append("\n");
    output.append("|");
    append_row_cells(&mut output, header, &widths);
    output.append("\n");
    output.append(rule.as_str());
    output.append("\n");
    let ghost top = output@;
    let n: usize = rows.len();
    let mut k: usize = 0;
    assert(output@ =~= top + row_lines(body, ws, 0));
    while k < n
        invariant
            n == rows@.len(),
            0 <= k <= n,
            widths@.len() == N,
            ws == widths@.map_values(|w: usize| w as nat),
            ws == column_widths(head, body, N as nat),
            body == rows_of(rows@),
            output@ == top + row_lines(body, ws, k as nat),
        decreases n - k,
    {
        proof {
            assert forall|i: int| 0 <= i < N implies widths@[i] >= byte_len(
                #[trigger] cells_of(rows@[k as int])[i],
            ) by {
                lemma_column_width_bounds(head, body, i, body.len(), (k + 1) as nat);
                assert(body[k as int] == cells_of(rows@[k as int]));
                assert(ws[i] == column_width(head, body, i, body.len()));
                assert(ws[i] == widths@[i] as nat);
            }
        }
        output.append("|");
        append_row_cells(&mut output, &rows[k], &widths);
        output.append("\n");
        k += 1;
        assert(output@ =~= top + row_lines(body, ws, k as nat));
    }
    output.append(rule.as_str());
    assert(output@ =~= table(head, body));
    output
}

/// A column is at least as wide as its header and as each of its cells.
pub proof fn lemma_column_width_bounds(
    header: Seq<Seq<char>>,
    rows: Seq<Seq<Seq<char>>>,
    c: int,
    k: nat,
    j: nat,
)
    requires
        j <= k,
    ensures
        column_width(header, rows, c, k) >= 1,
        column_width(header, rows, c, k) >= byte_len(header[c]),
        j >= 1 ==> column_width(header, rows, c, k) >= byte_len(rows[j - 1][c]),
    decreases k,
{
    if k > 0 {
        if j < k {
            lemma_column_width_bounds(header, rows, c, (k - 1) as nat, j);
        } else {
            lemma_column_width_bounds(header, rows, c, (k - 1) as nat, 0);
        }
    }
}

} // verus!
