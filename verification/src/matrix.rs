//! Four by four matrices as sixteen values in row order, whatever the
//! values are, and the texts they are read from.

use vstd::prelude::*;
use crate::text::{chars_of, glue, glued, same_text, split, split_text, string_views, texts};

verus! {

/// The place of the value in row `r` and column `c`.
pub open spec fn cell(r: int, c: int) -> int {
    4 * r + c
}

/// The values of `d` mirrored at the diagonal: the value in row `r` and
/// column `c` comes to stand in row `c` and column `r`.
pub fn transpose<T: Copy>(d: &[T; 16]) -> (t: [T; 16])
    ensures
        forall|r: int, c: int|
            0 <= r < 4 && 0 <= c < 4 ==> t@[#[trigger] cell(r, c)] == d@[cell(c, r)],
{
    let t = [
        d[0],
        d[4],
        d[8],
        d[12],
        d[1],
        d[5],
        d[9],
        d[13],
        d[2],
        d[6],
        d[10],
        d[14],
        d[3],
        d[7],
        d[11],
        d[15],
    ];
    assert forall|r: int, c: int| 0 <= r < 4 && 0 <= c < 4 implies t@[#[trigger] cell(r, c)]
        == d@[cell(c, r)] by {
        assert(0 <= cell(r, c) < 16);
    }
    t
}

/// The matrix `start` with its first values replaced by `values`, where
/// there are twelve or sixteen of them: three rows or all four.
pub fn from_vec<T: Copy>(values: &Vec<T>, start: [T; 16]) -> (m: Option<[T; 16]>)
    ensures
        m is Some <==> (values@.len() == 12 || values@.len() == 16),
        m matches Some(data) ==> forall|i: int|
            0 <= i < 16 ==> data@[i] == (if i < values@.len() {
                values@[i]
            } else {
                start@[i]
            }),
{
    if values.len() != 12 && values.len() != 16 {
        return None;
    }
    let mut data = start;
    let mut id: usize = 0;
    while id < values.len()
        invariant
            0 <= id <= values@.len() <= 16,
            forall|i: int|
                0 <= i < 16 ==> data@[i] == (if i < id {
                    values@[i]
                } else {
                    start@[i]
                }),
        decreases values@.len() - id,
    {
        data[id] = values[id];
        id += 1;
    }
    Some(data)
}

/// The matrix whose first three columns are `x`, `y` and `z`, whose
/// fourth column is `t`, and whose last row is three times `zero` and
/// `one`.
pub fn from_columns<T: Copy>(x: [T; 3], y: [T; 3], z: [T; 3], t: [T; 3], zero: T, one: T) -> (m: [T; 16])
    ensures
        forall|r: int|
            0 <= r < 3 ==> m@[#[trigger] cell(r, 0)] == x@[r] && m@[cell(r, 1)] == y@[r] && m@[cell(
                r,
                2,
            )] == z@[r] && m@[cell(r, 3)] == t@[r],
        m@[12] == zero && m@[13] == zero && m@[14] == zero && m@[15] == one,
{
    [
        x[0],
        y[0],
        z[0],
        t[0],
        x[1],
        y[1],
        z[1],
        t[1],
        x[2],
        y[2],
        z[2],
        t[2],
        zero,
        zero,
        zero,
        one,
    ]
}

/// A character that parts the numbers of a matrix: a comma, a bracket, a
/// parenthesis or a line break.
pub open spec fn is_separator(c: char) -> bool {
    c == ',' || c == '[' || c == ']' || c == '(' || c == ')' || c == '\n' || c == '\r'
}

/// `text` with a blank in place of every separator.
pub open spec fn blanked(text: Seq<char>) -> Seq<char> {
    text.map_values(
        |c: char|
            if is_separator(c) {
                ' '
            } else {
                c
            },
    )
}

/// The pieces among the first `upto` that are not empty.
pub open spec fn filled(pieces: Seq<Seq<char>>, upto: int) -> Seq<Seq<char>>
    decreases upto,
{
    if upto <= 0 {
        Seq::empty()
    } else if pieces[upto - 1].len() > 0 {
        filled(pieces, upto - 1).push(pieces[upto - 1])
    } else {
        filled(pieces, upto - 1)
    }
}

/// The words of `text`: what stands between blanks and separators.
pub open spec fn words_of(text: Seq<char>) -> Seq<Seq<char>> {
    let pieces = split_text(blanked(text), ' ');
    filled(pieces, pieces.len() as int)
}

/// `data` with a blank in place of every separator.
pub fn blank_separators(data: &str) -> (plain: String)
    ensures
        plain@ == blanked(data@),
{
    proof {
        reveal_strlit(" ");
    }
    let chars = chars_of(data);
    let ghost want = blanked(data@);
    let mut plain = String::new();
    let mut start: usize = 0;
    let mut i: usize = 0;
    assert(plain@ =~= want.take(0));
    while i < chars.len()
        invariant
            0 <= start <= i <= chars@.len(),
            chars@ == data@,
            want == blanked(data@),
            " "@ == seq![' '],
            plain@ == want.take(start as int),
            forall|j: int| start <= j < i ==> !is_separator(data@[j]),
        decreases chars@.len() - i,
    {
        let c = chars[i];
        if c == ',' || c == '[' || c == ']' || c == '(' || c == ')' || c == '\n' || c == '\r' {
            plain.append(data.substring_char(start, i));
            plain.append(" ");
            proof {
                let now = want.take(i + 1);
                assert forall|j: int| 0 <= j < now.len() implies plain@[j] == now[j] by {
                    if j < start {
                        assert(plain@[j] == want.take(start as int)[j]);
                    } else if j < i {
                        assert(plain@[j] == data@.subrange(start as int, i as int)[j - start]);
                    }
                }
                assert(plain@ =~= now);
            }
            start = i + 1;
        }
        i += 1;
    }
    plain.append(data.substring_char(start, i));
    proof {
        assert forall|j: int| 0 <= j < want.len() implies plain@[j] == want[j] by {
            if j < start {
                assert(plain@[j] == want.take(start as int)[j]);
            } else {
                assert(plain@[j] == data@.subrange(start as int, i as int)[j - start]);
            }
        }
        assert(plain@ =~= want);
    }
    plain
}

/// The words of `data`, which are the numbers of a matrix written as
/// text.
pub fn words(data: &str) -> (found: Vec<String>)
    ensures
        string_views(found@) == words_of(data@),
{
    let plain = blank_separators(data);
    let pieces = split(plain.as_str(), ' ');
    let mut found: Vec<String> = Vec::new();
    let mut k: usize = 0;
    assert(string_views(found@) =~= filled(string_views(pieces@), 0));
    while k < pieces.len()
        invariant
            0 <= k <= pieces@.len(),
            string_views(found@) == filled(string_views(pieces@), k as int),
        decreases pieces@.len() - k,
    {
        assert(string_views(pieces@)[k as int] == pieces@[k as int]@);
        if !pieces[k].as_str().is_empty() {
            let ghost before = string_views(found@);
            found.push(pieces[k].clone());
            assert(string_views(found@) =~= before.push(pieces@[k as int]@));
        }
        k += 1;
    }
    found
}

/// `data` as the text of a JSON object: as it is where it begins with a
/// brace, in braces otherwise.
pub open spec fn as_object(data: Seq<char>) -> Seq<char> {
    if data[0] == '{' {
        data
    } else {
        glue(seq!["{"@, data, "}"@])
    }
}

/// Puts `data` in braces unless it begins with one.
pub fn braced(data: &str) -> (text: String)
    requires
        data@.len() > 0,
    ensures
        text@ == as_object(data@),
{
    let chars = chars_of(data);
    if chars[0] != '{' {
        let parts = vec!["{", data, "}"];
        assert(texts(parts@) =~= seq!["{"@, data@, "}"@]);
        glued(&parts)
    } else {
        data.to_owned()
    }
}

/// The ways in which a matrix is written out.
#[derive(Debug, Clone, Copy, PartialEq, Eq, Structural)]
pub enum Notation {
    Blender,
    Numpy,
    Json,
    Array,
    CloudCompare,
}

/// The notation that `name` stands for.
pub open spec fn notation_named(name: Seq<char>) -> Option<Notation> {
    if name == "blender"@ {
        Some(Notation::Blender)
    } else if name == "np"@ || name == "numpy"@ {
        Some(Notation::Numpy)
    } else if name == "json"@ {
        Some(Notation::Json)
    } else if name == "arr"@ || name == "array"@ {
        Some(Notation::Array)
    } else if name == "cc"@ {
        Some(Notation::CloudCompare)
    } else {
        None
    }
}

/// Reads the name of a notation.
pub fn notation(name: &str) -> (found: Option<Notation>)
    ensures
        found == notation_named(name@),
{
    if same_text(name, "blender") {
        Some(Notation::Blender)
    } else if same_text(name, "np") || same_text(name, "numpy") {
        Some(Notation::Numpy)
    } else if same_text(name, "json") {
        Some(Notation::Json)
    } else if same_text(name, "arr") || same_text(name, "array") {
        Some(Notation::Array)
    } else if same_text(name, "cc") {
        Some(Notation::CloudCompare)
    } else {
        None
    }
}

/// The sixteen numbers `cells` of a matrix, row by row: `open`, the rows
/// with `between` between them, and `close`, the numbers of a row being
/// parted by `separator`.
pub open spec fn rows_text(
    cells: Seq<Seq<char>>,
    open: Seq<char>,
    between: Seq<char>,
    close: Seq<char>,
    separator: Seq<char>,
) -> Seq<char>
    recommends
        cells.len() == 16,
{
    glue(
        seq![
            open,
            cells[0],
            separator,
            cells[1],
            separator,
            cells[2],
            separator,
            cells[3],
            between,
            cells[4],
            separator,
            cells[5],
            separator,
            cells[6],
            separator,
            cells[7],
            between,
            cells[8],
            separator,
            cells[9],
            separator,
            cells[10],
            separator,
            cells[11],
            between,
            cells[12],
            separator,
            cells[13],
            separator,
            cells[14],
            separator,
            cells[15],
            close,
        ],
    )
}

/// The first three rows of a matrix as the three axes and the translation
/// of a JSON object, each with its components `i`, `j` and `k`.
pub open spec fn json_text(cells: Seq<Seq<char>>) -> Seq<char>
    recommends
        cells.len() == 16,
{
    glue(
        seq![
            "{\"colX\":{\"i\":"@,
            cells[0],
            ", \"j\":"@,
            cells[4],
            ", \"k\":"@,
            cells[8],
            " }, \"colY\":{\"i\":"@,
            cells[1],
            ", \"j\":"@,
            cells[5],
            ", \"k\":"@,
            cells[9],
            " }, \"colZ\":{\"i\":"@,
            cells[2],
            ", \"j\":"@,
            cells[6],
            ", \"k\":"@,
            cells[10],
            " }, \"translation\":{\"i\":"@,
            cells[3],
            ", \"j\":"@,
            cells[7],
            ", \"k\":"@,
            cells[11],
            " } }"@,
        ],
    )
}

/// A matrix in the given notation, `cells` being its sixteen numbers as
/// they are written.
pub open spec fn matrix_text(notation: Notation, cells: Seq<Seq<char>>) -> Seq<char>
    recommends
        cells.len() == 16,
{
    match notation {
        Notation::Blender => rows_text(cells, "Matrix([["@, "],["@, "]])"@, ", "@),
        Notation::Numpy => rows_text(cells, "np.array([["@, "],["@, "]])"@, ", "@),
        Notation::Json => json_text(cells),
        Notation::Array => rows_text(cells, "["@, ", "@, "]"@, ", "@),
        Notation::CloudCompare => rows_text(cells, ""@, "\n"@, ""@, " "@),
    }
}

/// Writes sixteen numbers row by row.
pub fn write_rows(cells: &Vec<String>, open: &str, between: &str, close: &str, separator: &str) -> (text:
    String)
    requires
        cells@.len() == 16,
    ensures
        text@ == rows_text(string_views(cells@), open@, between@, close@, separator@),
{
    let c = cells;
    let parts = vec![
        open,
        c[0].as_str(),
        separator,
        c[1].as_str(),
        separator,
        c[2].as_str(),
        separator,
        c[3].as_str(),
        between,
        c[4].as_str(),
        separator,
        c[5].as_str(),
        separator,
        c[6].as_str(),
        separator,
        c[7].as_str(),
        between,
        c[8].as_str(),
        separator,
        c[9].as_str(),
        separator,
        c[10].as_str(),
        separator,
        c[11].as_str(),
        between,
        c[12].as_str(),
        separator,
        c[13].as_str(),
        separator,
        c[14].as_str(),
        separator,
        c[15].as_str(),
        close,
    ];
    let ghost v = string_views(cells@);
    assert(texts(parts@) =~= seq![
        open@,
        v[0],
        separator@,
        v[1],
        separator@,
        v[2],
        separator@,
        v[3],
        between@,
        v[4],
        separator@,
        v[5],
        separator@,
        v[6],
        separator@,
        v[7],
        between@,
        v[8],
        separator@,
        v[9],
        separator@,
        v[10],
        separator@,
        v[11],
        between@,
        v[12],
        separator@,
        v[13],
        separator@,
        v[14],
        separator@,
        v[15],
        close@,
    ]);
    glued(&parts)
}

/// Writes the first three rows of a matrix as a JSON object.
pub fn write_json(cells: &Vec<String>) -> (text: String)
    requires
        cells@.len() == 16,
    ensures
        text@ == json_text(string_views(cells@)),
{
    let c = cells;
    let parts = vec![
        "{\"colX\":{\"i\":",
        c[0].as_str(),
        ", \"j\":",
        c[4].as_str(),
        ", \"k\":",
        c[8].as_str(),
        " }, \"colY\":{\"i\":",
        c[1].as_str(),
        ", \"j\":",
        c[5].as_str(),
        ", \"k\":",
        c[9].as_str(),
        " }, \"colZ\":{\"i\":",
        c[2].as_str(),
        ", \"j\":",
        c[6].as_str(),
        ", \"k\":",
        c[10].as_str(),
        " }, \"translation\":{\"i\":",
        c[3].as_str(),
        ", \"j\":",
        c[7].as_str(),
        ", \"k\":",
        c[11].as_str(),
        " } }",
    ];
    let ghost v = string_views(cells@);
    assert(texts(parts@) =~= seq![
        "{\"colX\":{\"i\":"@,
        v[0],
        ", \"j\":"@,
        v[4],
        ", \"k\":"@,
        v[8],
        " }, \"colY\":{\"i\":"@,
        v[1],
        ", \"j\":"@,
        v[5],
        ", \"k\":"@,
        v[9],
        " }, \"colZ\":{\"i\":"@,
        v[2],
        ", \"j\":"@,
        v[6],
        ", \"k\":"@,
        v[10],
        " }, \"translation\":{\"i\":"@,
        v[3],
        ", \"j\":"@,
        v[7],
        ", \"k\":"@,
        v[11],
        " } }"@,
    ]);
    glued(&parts)
}

/// Writes a matrix in the given notation, `cells` being its sixteen
/// numbers as they are written.
pub fn write_matrix(notation: Notation, cells: &Vec<String>) -> (text: String)
    requires
        cells@.len() == 16,
    ensures
        text@ == matrix_text(notation, string_views(cells@)),
{
    match notation {
        Notation::Blender => write_rows(cells, "Matrix([[", "],[", "]])", ", "),
        Notation::Numpy => write_rows(cells, "np.array([[", "],[", "]])", ", "),
        Notation::Json => write_json(cells),
        Notation::Array => write_rows(cells, "[", ", ", "]", ", "),
        Notation::CloudCompare => write_rows(cells, "", "\n", "", " "),
    }
}

} // verus!
