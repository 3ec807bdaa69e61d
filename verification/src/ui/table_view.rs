use vstd::prelude::*;
use vstd::utf8::*;

verus! {

/// A table of text cells under a row of column names.
pub struct TableView {
    rows: Vec<Vec<String>>,
    columns: Vec<String>,
}

/// The longest cell, in bytes, shown in full.
pub const CELL_DISPLAY_BYTES: usize = 50;

/// The marker that ends a shortened cell: `...`.
pub open spec fn ellipsis() -> Seq<char> {
    seq!['.', '.', '.']
}

/// A cell can be shown: it is short enough to be shown in full, or its first
/// 50 bytes end on a character boundary.
pub open spec fn displayable(cell: Seq<char>) -> bool {
    encode_utf8(cell).len() <= 50 || is_char_boundary(encode_utf8(cell), 50)
}

/// How a cell is shown: in full when it has at most 50 bytes, else its first
/// 50 bytes followed by `...`.
pub open spec fn displayed(cell: Seq<char>) -> Seq<char> {
    if encode_utf8(cell).len() <= 50 {
        cell
    } else {
        decode_utf8(encode_utf8(cell).subrange(0, 50)) + ellipsis()
    }
}

/// The UTF-8 encoding of a concatenation is the concatenation of the encodings.
pub proof fn lemma_encode_utf8_concat(a: Seq<char>, b: Seq<char>)
    ensures
        encode_utf8(a + b) == encode_utf8(a) + encode_utf8(b),
    decreases a.len(),
{
    if a.len() == 0 {
        assert(a + b =~= b);
        assert(encode_utf8(a) =~= Seq::<u8>::empty());
        assert(encode_utf8(a) + encode_utf8(b) =~= encode_utf8(b));
    } else {
        assert((a + b)[0] == a[0]);
        assert((a + b).drop_first() =~= a.drop_first() + b);
        lemma_encode_utf8_concat(a.drop_first(), b);
        assert(encode_utf8(a + b) =~= encode_utf8(a) + encode_utf8(b));
    }
}

/// The bytes of `...`: three full stops.
pub proof fn lemma_ellipsis_bytes()
    ensures
        encode_utf8(ellipsis()) == seq![46u8, 46u8, 46u8],
{
    let e = ellipsis();
    assert(is_ascii_chars(e)) by {
        assert forall|i: int| 0 <= i < e.len() implies '\0' <= #[trigger] e[i] <= '\u{7f}' by {
        }
    }
    is_ascii_chars_encode_utf8(e);
    assert(encode_utf8(e) =~= seq![46u8, 46u8, 46u8]);
}

/// What is shown of a cell, over bytes: a cell of at most 50 bytes is shown
/// unchanged; a longer one as exactly its first 50 bytes followed by the three
/// bytes of `...`; so nothing shown exceeds 53 bytes.
pub proof fn lemma_displayed_bytes(cell: Seq<char>)
    requires
        displayable(cell),
    ensures
        encode_utf8(cell).len() <= 50 ==> displayed(cell) == cell,
        encode_utf8(cell).len() > 50 ==> encode_utf8(displayed(cell)) == encode_utf8(cell).subrange(
            0,
            50,
        ) + seq![46u8, 46u8, 46u8],
        encode_utf8(displayed(cell)).len() <= 53,
{
    let bytes = encode_utf8(cell);
    if bytes.len() > 50 {
        encode_utf8_valid_utf8(cell);
        valid_utf8_split(bytes, 50);
        let head = bytes.subrange(0, 50);
        decode_utf8_encode_utf8(head);
        lemma_encode_utf8_concat(decode_utf8(head), ellipsis());
        lemma_ellipsis_bytes();
    }
}

/// The text shown for a cell: the cell itself when it has at most 50 bytes,
/// else its first 50 bytes followed by `...`.
pub fn truncate_cell(cell: &str) -> (shown: String)
    requires
        displayable(cell@),
        encode_utf8(cell@).len() <= usize::MAX,
    ensures
        shown@ == displayed(cell@),
        encode_utf8(cell@).len() <= 50 ==> shown@ == cell@,
        encode_utf8(cell@).len() > 50 ==> encode_utf8(shown@) == encode_utf8(cell@).subrange(0, 50)
            + seq![46u8, 46u8, 46u8],
{
    proof {
        lemma_displayed_bytes(cell@);
    }
    if cell.len() > CELL_DISPLAY_BYTES {
        let (head, _) = cell.split_at(CELL_DISPLAY_BYTES);
        proof {
            broadcast use encode_utf8_decode_utf8;

            assert(decode_utf8(encode_utf8(head@)) == head@);
        }
        let shown = String::from_str(head).concat("...");
        proof {
            reveal_strlit("...");
        }
        assert(shown@ =~= displayed(cell@));
        shown
    } else {
        String::from_str(cell)
    }
}

impl TableView {
    /// The column names.
    pub closed spec fn column_names(self) -> Seq<String> {
        self.columns@
    }

    /// The cells, row by row.
    pub closed spec fn cells(self) -> Seq<Seq<String>> {
        self.rows@.map_values(|r: Vec<String>| r@)
    }

    /// A table with these column names and rows.
    pub fn new(columns: Vec<String>, rows: Vec<Vec<String>>) -> (t: Self)
        ensures
            t.column_names() == columns@,
            t.cells() == rows@.map_values(|r: Vec<String>| r@),
    {
        TableView { rows, columns }
    }

    /// The header row as shown: the column names.
    pub fn header(&self) -> (names: Vec<String>)
        ensures
            names@ == self.column_names(),
    {
        let n = self.columns.len();
        let mut names: Vec<String> = Vec::new();
        let mut i: usize = 0;
        while i < n
            invariant
                n == self.columns@.len(),
                i <= n,
                names@ == self.columns@.take(i as int),
            decreases n - i,
        {
            names.push(self.columns[i].clone());
            assert(names@ =~= self.columns@.take(i + 1));
            i = i + 1;
        }
        assert(self.columns@.take(n as int) =~= self.columns@);
        names
    }

    /// The rows as shown: every cell through `truncate_cell`.
    pub fn shown_rows(&self) -> (shown: Vec<Vec<String>>)
        requires
            forall|i: int, j: int|
                0 <= i < self.cells().len() && 0 <= j < self.cells()[i].len() ==> {
                    &&& displayable(#[trigger] self.cells()[i][j]@)
                    &&& encode_utf8(self.cells()[i][j]@).len() <= usize::MAX
                },
        ensures
            shown@.len() == self.cells().len(),
            forall|i: int|
                0 <= i < shown@.len() ==> (#[trigger] shown@[i])@.len() == self.cells()[i].len(),
            forall|i: int, j: int|
                0 <= i < shown@.len() && 0 <= j < shown@[i]@.len() ==> (#[trigger] shown@[i]@[j])@
                    == displayed(self.cells()[i][j]@),
    {
        let n = self.rows.len();
        let mut shown: Vec<Vec<String>> = Vec::new();
        let mut i: usize = 0;
        while i < n
            invariant
                n == self.rows@.len(),
                n == self.cells().len(),
                forall|i: int, j: int|
                    0 <= i < self.cells().len() && 0 <= j < self.cells()[i].len() ==> {
                        &&& displayable(#[trigger] self.cells()[i][j]@)
                        &&& encode_utf8(self.cells()[i][j]@).len() <= usize::MAX
                    },
                i <= n,
                shown@.len() == i,
                forall|a: int| 0 <= a < i ==> (#[trigger] shown@[a])@.len() == self.cells()[a].len(),
                forall|a: int, b: int|
                    0 <= a < i && 0 <= b < shown@[a]@.len() ==> (#[trigger] shown@[a]@[b])@
                        == displayed(self.cells()[a][b]@),
            decreases n - i,
        {
            let row = &self.rows[i];
            assert(row@ == self.cells()[i as int]);
            let m = row.len();
            let mut line: Vec<String> = Vec::new();
            let mut j: usize = 0;
            while j < m
                invariant
                    m == row@.len(),
                    row@ == self.cells()[i as int],
                    i < self.cells().len(),
                    forall|i: int, j: int|
                        0 <= i < self.cells().len() && 0 <= j < self.cells()[i].len() ==> {
                            &&& displayable(#[trigger] self.cells()[i][j]@)
                            &&& encode_utf8(self.cells()[i][j]@).len() <= usize::MAX
                        },
                    j <= m,
                    line@.len() == j,
                    forall|b: int| 0 <= b < j ==> (#[trigger] line@[b])@ == displayed(row@[b]@),
                decreases m - j,
            {
                assert(displayable(self.cells()[i as int][j as int]@));
                let cell = truncate_cell(row[j].as_str());
                line.push(cell);
                j = j + 1;
            }
            shown.push(line);
            i = i + 1;
        }
        shown
    }
}

} // verus!
