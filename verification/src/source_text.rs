//! Line-level views of source files: the rows of the `source_lines` table and
//! the line count of the `source_files` table.
//!
//! A line ends at `'\n'`; a `'\r'` just before that `'\n'` belongs to the line
//! ending, and the last line needs no ending.
use vstd::prelude::*;
use crate::text::{chars_of, owned, string_from_range};
use vstd::utf8::{decode_utf8, valid_utf8};

verus! {

broadcast use vstd::string::group_string_axioms;

/// Files larger than this many bytes are not ingested line by line.
pub const MAX_FILE_SIZE: u64 = 1048576;

/// Whether a file of `size` bytes is ingested line by line.
pub fn within_line_limit(size: u64) -> (b: bool)
    ensures
        b == (size <= MAX_FILE_SIZE),
{
    size <= MAX_FILE_SIZE
}

// ---------------------------------------------------------------------------
// Counting the lines of a byte stream
// ---------------------------------------------------------------------------
/// The number of `'\n'` bytes in `b`.
pub open spec fn newlines(b: Seq<u8>) -> nat
    decreases b.len(),
{
    if b.len() == 0 {
        0
    } else {
        newlines(b.drop_last()) + if b.last() == 10u8 { 1nat } else { 0nat }
    }
}

/// Whether `b` ends inside a line, that is, after a byte other than `'\n'`.
pub open spec fn ends_mid_line(b: Seq<u8>) -> bool {
    b.len() > 0 && b.last() != 10u8
}

/// The number of lines of `b`: one per `'\n'`, and one more for a last line
/// that has no `'\n'` after it.
pub open spec fn line_count(b: Seq<u8>) -> nat {
    newlines(b) + if ends_mid_line(b) { 1nat } else { 0nat }
}

/// The `'\n'` bytes of two pieces add up.
pub proof fn lemma_newlines_concat(a: Seq<u8>, b: Seq<u8>)
    ensures
        newlines(a + b) == newlines(a) + newlines(b),
    decreases b.len(),
{
    if b.len() == 0 {
        assert(a + b =~= a);
    } else {
        lemma_newlines_concat(a, b.drop_last());
        assert((a + b).drop_last() =~= a + b.drop_last());
    }
}

/// Counts the lines of a byte stream handed over in chunks.
pub struct LineCounter {
    complete: u64,
    mid_line: bool,
    seen: Ghost<Seq<u8>>,
}

impl LineCounter {
    /// The bytes handed over so far.
    pub closed spec fn seen(&self) -> Seq<u8> {
        self.seen@
    }

    pub closed spec fn wf(&self) -> bool {
        &&& self.complete == newlines(self.seen@)
        &&& self.mid_line == ends_mid_line(self.seen@)
        &&& self.seen@.len() <= u64::MAX
    }

    /// A counter that has seen nothing.
    pub fn new() -> (c: LineCounter)
        ensures
            c.wf(),
            c.seen() == Seq::<u8>::empty(),
    {
        LineCounter { complete: 0, mid_line: false, seen: Ghost(Seq::empty()) }
    }

    /// Hands over the next chunk of the stream.
    pub fn feed(&mut self, chunk: &[u8])
        requires
            old(self).wf(),
            old(self).seen().len() + chunk@.len() <= u64::MAX,
        ensures
            final(self).wf(),
            final(self).seen() == old(self).seen() + chunk@,
    {
        let mut i: usize = 0;
        while i < chunk.len()
            invariant
                i <= chunk@.len(),
                self.seen@ == old(self).seen@ + chunk@.subrange(0, i as int),
                self.complete == newlines(self.seen@),
                self.mid_line == ends_mid_line(self.seen@),
                self.seen@.len() <= u64::MAX,
                old(self).seen@.len() + chunk@.len() <= u64::MAX,
            decreases chunk.len() - i,
        {
            let byte = chunk[i];
            let ghost before = self.seen@;
            proof {
                self.seen@ = before.push(byte);
                assert(self.seen@ =~= old(self).seen@ + chunk@.subrange(0, i + 1));
                assert(self.seen@.drop_last() =~= before);
                assert(newlines(before) <= before.len()) by {
                    lemma_newlines_bound(before);
                }
            }
            if byte == 10u8 {
                self.complete = self.complete + 1;
                self.mid_line = false;
            } else {
                self.mid_line = true;
            }
            i = i + 1;
        }
        assert(chunk@.subrange(0, chunk@.len() as int) =~= chunk@);
    }

    /// The number of lines of everything handed over.
    pub fn total(&self) -> (n: u64)
        requires
            self.wf(),
        ensures
            n == line_count(self.seen()),
    {
        proof {
            lemma_line_count_bound(self.seen@);
        }
        if self.mid_line {
            self.complete + 1
        } else {
            self.complete
        }
    }
}

/// There are no more `'\n'` bytes than bytes.
pub proof fn lemma_newlines_bound(b: Seq<u8>)
    ensures
        newlines(b) <= b.len(),
    decreases b.len(),
{
    if b.len() > 0 {
        lemma_newlines_bound(b.drop_last());
    }
}

/// The line count never exceeds the number of bytes.
pub proof fn lemma_line_count_bound(b: Seq<u8>)
    ensures
        line_count(b) <= b.len(),
    decreases b.len(),
{
    if b.len() > 0 {
        lemma_newlines_bound(b.drop_last());
    }
}

/// Counting chunk by chunk gives the count of the whole: the number of lines
/// of `a + b` is that of `a` and `b` together, less one when `a` ends inside a
/// line that `b` continues.
pub proof fn law_line_count_concat(a: Seq<u8>, b: Seq<u8>)
    ensures
        line_count(a + b) == line_count(a) + line_count(b) - if ends_mid_line(a) && b.len() > 0 {
            1int
        } else {
            0int
        },
{
    lemma_newlines_concat(a, b);
    if b.len() == 0 {
        assert(a + b =~= a);
    } else {
        assert((a + b).last() == b.last());
    }
}

// ---------------------------------------------------------------------------
// The lines of a text
// ---------------------------------------------------------------------------
/// The index of the first `'\n'` at or after `from`, or the length of `s`.
pub open spec fn line_end(s: Seq<char>, from: int) -> int
    decreases s.len() - from,
{
    if from >= s.len() {
        s.len() as int
    } else if s[from] == '\n' {
        from
    } else {
        line_end(s, from + 1)
    }
}

pub proof fn lemma_line_end_bounds(s: Seq<char>, from: int)
    requires
        0 <= from,
    ensures
        from <= s.len() ==> from <= line_end(s, from) <= s.len(),
        from > s.len() ==> line_end(s, from) == s.len(),
        line_end(s, from) < s.len() ==> s[line_end(s, from)] == '\n',
        forall|k: int| from <= k < line_end(s, from) ==> s[k] != '\n',
    decreases s.len() - from,
{
    if from < s.len() && s[from] != '\n' {
        lemma_line_end_bounds(s, from + 1);
    }
}

/// `x` without one `'\r'` at its end.
pub open spec fn strip_cr(x: Seq<char>) -> Seq<char> {
    if x.len() > 0 && x.last() == '\r' {
        x.drop_last()
    } else {
        x
    }
}

/// The lines of `s` that start at or after `start`, which is `0` or just after
/// a `'\n'`.
pub open spec fn lines_from(s: Seq<char>, start: int) -> Seq<Seq<char>>
    decreases s.len() - start
    via lines_from_decreases
{
    if start < 0 || start >= s.len() {
        Seq::empty()
    } else {
        let e = line_end(s, start);
        let raw = s.subrange(start, e);
        if e < s.len() {
            seq![strip_cr(raw)] + lines_from(s, e + 1)
        } else {
            seq![raw]
        }
    }
}

#[via_fn]
proof fn lines_from_decreases(s: Seq<char>, start: int) {
    if 0 <= start < s.len() {
        lemma_line_end_bounds(s, start);
    }
}

/// The lines of `s`, as `str::lines` gives them.
pub open spec fn text_lines(s: Seq<char>) -> Seq<Seq<char>> {
    lines_from(s, 0)
}

/// The characters that `char::is_whitespace` accepts (Unicode `White_Space`).
pub open spec fn white_space(c: char) -> bool {
    let u = c as u32;
    ||| 0x09 <= u <= 0x0D
    ||| u == 0x20
    ||| u == 0x85
    ||| u == 0xA0
    ||| u == 0x1680
    ||| 0x2000 <= u <= 0x200A
    ||| u == 0x2028
    ||| u == 0x2029
    ||| u == 0x202F
    ||| u == 0x205F
    ||| u == 0x3000
}

/// A line is blank when nothing is left of it once whitespace is trimmed.
pub open spec fn blank(line: Seq<char>) -> bool {
    forall|k: int| 0 <= k < line.len() ==> white_space(#[trigger] line[k])
}

/// `char::is_whitespace`.
pub fn is_white_space(c: char) -> (b: bool)
    ensures
        b == white_space(c),
{
    let u = c as u32;
    (0x09 <= u && u <= 0x0D) || u == 0x20 || u == 0x85 || u == 0xA0 || u == 0x1680 || (0x2000
        <= u && u <= 0x200A) || u == 0x2028 || u == 0x2029 || u == 0x202F || u == 0x205F || u
        == 0x3000
}

fn range_blank(v: &Vec<char>, from: usize, to: usize) -> (b: bool)
    requires
        from <= to <= v@.len(),
    ensures
        b == blank(v@.subrange(from as int, to as int)),
{
    let mut i = from;
    while i < to
        invariant
            from <= i <= to <= v@.len(),
            forall|k: int| from <= k < i ==> white_space(#[trigger] v@[k]),
        decreases to - i,
    {
        if !is_white_space(v[i]) {
            assert(v@.subrange(from as int, to as int)[i - from] == v@[i as int]);
            return false;
        }
        i = i + 1;
    }
    assert forall|k: int| 0 <= k < v@.subrange(from as int, to as int).len() implies white_space(
        #[trigger] v@.subrange(from as int, to as int)[k],
    ) by {
        assert(v@.subrange(from as int, to as int)[k] == v@[from + k]);
    }
    true
}

/// A row of the `source_lines` table.
pub struct SourceLine {
    pub file_path: String,
    pub line_number: i64,
    pub content: String,
    pub is_blank: i64,
}

/// What the row for line `k` (counted from 0) of `content` in `file_path` holds.
pub open spec fn source_line_is(
    row: SourceLine,
    file_path: Seq<char>,
    content: Seq<char>,
    k: int,
) -> bool {
    &&& row.file_path@ == file_path
    &&& row.line_number == (k + 1) as i64
    &&& row.content@ == text_lines(content)[k]
    &&& row.is_blank == if blank(text_lines(content)[k]) { 1i64 } else { 0i64 }
}

/// The contents of `rows`, in order.
pub open spec fn row_contents(rows: Seq<SourceLine>) -> Seq<Seq<char>> {
    rows.map_values(|r: SourceLine| r.content@)
}

/// The rows of the `source_lines` table for the text `content` of the file
/// `file_path`: one per line, numbered from 1.
pub fn line_rows(file_path: &str, content: &str) -> (rows: Vec<SourceLine>)
    ensures
        rows@.len() == text_lines(content@).len(),
        forall|k: int|
            0 <= k < rows@.len() ==> source_line_is(#[trigger] rows@[k], file_path@, content@, k),
{
    let v = chars_of(content);
    let ghost s = content@;
    let mut rows: Vec<SourceLine> = Vec::new();
    let mut start: usize = 0;
    let mut i: usize = 0;
    while i < v.len()
        invariant
            v@ == s,
            s == content@,
            start <= i <= v@.len(),
            text_lines(s) == row_contents(rows@) + lines_from(s, start as int),
            forall|k: int| start <= k < i ==> s[k] != '\n',
            forall|k: int|
                0 <= k < rows@.len() ==> source_line_is(#[trigger] rows@[k], file_path@, s, k),
            rows@.len() <= start,
        decreases v.len() - i,
    {
        if v[i] == '\n' {
            proof {
                lemma_line_end_at(s, start as int, i as int);
            }
            let stop = if i > start && v[i - 1] == '\r' {
                i - 1
            } else {
                i
            };
            let line = string_from_range(&v, start, stop);
            let blank_line = range_blank(&v, start, stop);
            let ghost old_rows = rows@;
            proof {
                assert(strip_cr(s.subrange(start as int, i as int)) =~= s.subrange(
                    start as int,
                    stop as int,
                ));
                assert(lines_from(s, start as int) =~= seq![
                    s.subrange(start as int, stop as int),
                ] + lines_from(s, i + 1));
            }
            let n = rows.len();
            rows.push(
                SourceLine {
                    file_path: owned(file_path),
                    line_number: (n + 1) as i64,
                    content: line,
                    is_blank: if blank_line {
                        1
                    } else {
                        0
                    },
                },
            );
            proof {
                assert(row_contents(rows@) =~= row_contents(old_rows).push(s.subrange(start as int, stop as int)));
                assert(text_lines(s)[n as int] == s.subrange(start as int, stop as int)) by {
                    assert(row_contents(old_rows).len() == n);
                }
            }
            start = i + 1;
        }
        i = i + 1;
    }
    if start < v.len() {
        proof {
            lemma_line_end_at(s, start as int, v@.len() as int);
            assert(lines_from(s, start as int) =~= seq![s.subrange(start as int, v@.len() as int)]);
        }
        let line = string_from_range(&v, start, v.len());
        let blank_line = range_blank(&v, start, v.len());
        let ghost old_rows = rows@;
        let n = rows.len();
        rows.push(
            SourceLine {
                file_path: owned(file_path),
                line_number: (n + 1) as i64,
                content: line,
                is_blank: if blank_line {
                    1
                } else {
                    0
                },
            },
        );
        proof {
            assert(row_contents(rows@) =~= row_contents(old_rows).push(s.subrange(start as int, v@.len() as int)));
            assert(text_lines(s)[n as int] == s.subrange(start as int, v@.len() as int)) by {
                assert(row_contents(old_rows).len() == n);
            }
        }
        assert(text_lines(s) =~= row_contents(rows@));
    } else {
        assert(lines_from(s, start as int) =~= Seq::<Seq<char>>::empty());
        assert(text_lines(s) =~= row_contents(rows@));
    }
    rows
}

proof fn lemma_line_end_at(s: Seq<char>, start: int, i: int)
    requires
        0 <= start <= i <= s.len(),
        forall|k: int| start <= k < i ==> s[k] != '\n',
        i == s.len() || s[i] == '\n',
    ensures
        line_end(s, start) == i,
    decreases i - start,
{
    if start < i {
        lemma_line_end_at(s, start + 1, i);
    }
}

// ---------------------------------------------------------------------------
// Files as bytes
// ---------------------------------------------------------------------------
/// What `String::from_utf8_lossy` makes of `bytes`.
pub uninterp spec fn lossy_text(bytes: Seq<u8>) -> Seq<char>;

/// `String::from_utf8_lossy`: the text of `bytes`, with each invalid sequence
/// replaced by U+FFFD. Claimed: the result is a function of the bytes, and
/// bytes that are valid UTF-8 decode unchanged. How invalid sequences are
/// replaced is not stated.
#[verifier::external_body]
fn decode_lossy(bytes: &[u8]) -> (s: String)
    ensures
        s@ == lossy_text(bytes@),
        valid_utf8(bytes@) ==> s@ == decode_utf8(bytes@),
{
    String::from_utf8_lossy(bytes).into_owned()
}

/// The rows of the `source_lines` table for the file `file_path` whose bytes
/// are `bytes`, read as UTF-8 with invalid sequences replaced.
pub fn file_line_rows(file_path: &str, bytes: &[u8]) -> (rows: Vec<SourceLine>)
    ensures
        rows@.len() == text_lines(lossy_text(bytes@)).len(),
        forall|k: int|
            0 <= k < rows@.len() ==> source_line_is(
                #[trigger] rows@[k],
                file_path@,
                lossy_text(bytes@),
                k,
            ),
        valid_utf8(bytes@) ==> rows@.len() == text_lines(decode_utf8(bytes@)).len(),
{
    let content = decode_lossy(bytes);
    line_rows(file_path, content.as_str())
}

/// A row of the `source_files` table.
pub struct SourceFileRow {
    pub path: String,
    pub name: String,
    pub extension: String,
    pub directory: String,
    pub size_bytes: i64,
    pub line_count: i64,
    pub modified_at: String,
    pub language: Option<String>,
}

/// The `source_files` row of a file: its walk data, its size and line count
/// as stored (64-bit two's complement), and its language if one is known.
pub fn source_file_row(
    path: String,
    name: String,
    extension: String,
    directory: String,
    size: u64,
    line_count: u64,
    modified_at: String,
    language: Option<String>,
) -> (row: SourceFileRow)
    ensures
        row.path@ == path@,
        row.name@ == name@,
        row.extension@ == extension@,
        row.directory@ == directory@,
        row.size_bytes == size as i64,
        row.line_count == line_count as i64,
        row.modified_at@ == modified_at@,
        row.language == language,
{
    SourceFileRow {
        path,
        name,
        extension,
        directory,
        size_bytes: size as i64,
        line_count: line_count as i64,
        modified_at,
        language,
    }
}

} // verus!
