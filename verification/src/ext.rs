use vstd::prelude::*;

use crate::mesh::TriangleMesh;

verus! {

/// A failure while parsing a point-cloud text. The first error aborts the
/// load; no partial result is returned.
#[derive(Debug, Clone, Copy, PartialEq, Eq, Structural)]
pub enum LoadError {
    /// The input ended before the declared number of coordinate rows.
    IO,
    /// The leading vertex-count line is not an unsigned decimal integer
    /// (or does not fit the machine word).
    ParseInt,
    /// Field `field` of row `row` is not a floating-point token.
    ParseFloat { row: usize, field: usize },
    /// Row `row` has fewer than three fields; `field` is the first missing.
    Parse { row: usize, field: usize },
}

/// One parsed coordinate row: the three whitespace-separated tokens, each
/// already checked against the floating-point grammar. Turning a token
/// into an IEEE-754 value is the caller's (floating-point) business.
#[derive(Debug, Clone)]
pub struct Row {
    pub x: Vec<u8>,
    pub y: Vec<u8>,
    pub z: Vec<u8>,
}

pub open spec fn is_digit(b: u8) -> bool {
    48 <= b <= 57
}

/// ASCII whitespace: space, tab, carriage return, line feed.
pub open spec fn is_ws(b: u8) -> bool {
    b == 32 || b == 9 || b == 13 || b == 10
}

/// The first index at or after `i` holding a non-digit (or the end).
pub open spec fn digits_end(s: Seq<u8>, i: int) -> int
    decreases s.len() - i,
{
    if 0 <= i < s.len() && is_digit(s[i]) {
        digits_end(s, i + 1)
    } else {
        i
    }
}

/// The first index at or after `i` holding non-whitespace (or the end).
pub open spec fn skip_ws(s: Seq<u8>, i: int) -> int
    decreases s.len() - i,
{
    if 0 <= i < s.len() && is_ws(s[i]) {
        skip_ws(s, i + 1)
    } else {
        i
    }
}

/// The first index at or after `i` holding whitespace (or the end).
pub open spec fn token_end(s: Seq<u8>, i: int) -> int
    decreases s.len() - i,
{
    if 0 <= i < s.len() && !is_ws(s[i]) {
        token_end(s, i + 1)
    } else {
        i
    }
}

/// ASCII lower-casing of one byte.
pub open spec fn lower(b: u8) -> u8 {
    if 65 <= b <= 90 {
        (b + 32) as u8
    } else {
        b
    }
}

/// The bytes from `i` on spell `w`, case-insensitively, up to the end.
pub open spec fn word_from(s: Seq<u8>, i: int, w: Seq<u8>) -> bool {
    s.len() - i == w.len() && (forall|k: int|
        0 <= k < w.len() ==> lower(#[trigger] s[i + k]) == w[k])
}

/// An exponent part starting at `j`: `e`/`E`, an optional sign, then
/// digits reaching the end.
pub open spec fn is_exp_from(s: Seq<u8>, j: int) -> bool {
    j < s.len() && (s[j] == 101 || s[j] == 69) && {
        let k = if j + 1 < s.len() && (s[j + 1] == 43 || s[j + 1] == 45) {
            j + 2
        } else {
            j + 1
        };
        k < s.len() && digits_end(s, k) == s.len()
    }
}

/// A decimal number starting at `i`: digits, an optional point with
/// optional fraction digits (at least one digit on some side of the
/// point), then an optional exponent reaching the end.
pub open spec fn is_number_from(s: Seq<u8>, i: int) -> bool {
    let d1 = digits_end(s, i);
    if d1 < s.len() && s[d1] == 46 {
        let d2 = digits_end(s, d1 + 1);
        (d1 > i || d2 > d1 + 1) && (d2 == s.len() || is_exp_from(s, d2))
    } else {
        d1 > i && (d1 == s.len() || is_exp_from(s, d1))
    }
}

/// The grammar of a floating-point token as `str::parse` for doubles
/// documents it: an optional sign, then `inf`, `infinity`, `nan` (each
/// case-insensitive) or a decimal number with optional fraction and
/// exponent.
pub open spec fn is_float_token(s: Seq<u8>) -> bool {
    let i: int = if s.len() > 0 && (s[0] == 43 || s[0] == 45) {
        1
    } else {
        0
    };
    ||| word_from(s, i, seq![105, 110, 102])
    ||| word_from(s, i, seq![105, 110, 102, 105, 110, 105, 116, 121])
    ||| word_from(s, i, seq![110, 97, 110])
    ||| is_number_from(s, i)
}

/// The value of the decimal digits in `[i, end)` appended to `acc`.
pub open spec fn decimal_value(s: Seq<u8>, i: int, end: int, acc: int) -> int
    decreases end - i,
{
    if i < end {
        decimal_value(s, i + 1, end, acc * 10 + (s[i] - 48))
    } else {
        acc
    }
}

/// The index where the count's digits start: after leading whitespace and
/// an optional plus sign.
pub open spec fn header_digits_start(s: Seq<u8>) -> int {
    let a = skip_ws(s, 0);
    if a < s.len() && s[a] == 43 {
        a + 1
    } else {
        a
    }
}

/// A well-formed vertex-count line: at least one digit, with only
/// whitespace around it.
pub open spec fn header_ok(s: Seq<u8>) -> bool {
    let a = header_digits_start(s);
    let d = digits_end(s, a);
    d > a && skip_ws(s, d) == s.len()
}

/// The declared vertex count of a well-formed header line.
pub open spec fn header_count(s: Seq<u8>) -> int {
    let a = header_digits_start(s);
    decimal_value(s, a, digits_end(s, a), 0)
}

/// Start of whitespace-separated field `k` (`0`-based) of a row.
pub open spec fn field_start(s: Seq<u8>, k: int) -> int
    decreases k,
{
    if k <= 0 {
        skip_ws(s, 0)
    } else {
        skip_ws(s, token_end(s, field_start(s, k - 1)))
    }
}

/// End of whitespace-separated field `k` of a row.
pub open spec fn field_end(s: Seq<u8>, k: int) -> int {
    token_end(s, field_start(s, k))
}

/// The first problem of a coordinate row, checking fields `0`, `1`, `2` in
/// order, presence before grammar: `(k, true)` means field `k` is missing,
/// `(k, false)` means field `k` is not a float token, `(3, true)` means
/// the row is good (extra fields are ignored).
pub open spec fn row_error(s: Seq<u8>) -> (int, bool) {
    if field_start(s, 0) == s.len() {
        (0int, true)
    } else if !is_float_token(s.subrange(field_start(s, 0), field_end(s, 0))) {
        (0int, false)
    } else if field_start(s, 1) == s.len() {
        (1int, true)
    } else if !is_float_token(s.subrange(field_start(s, 1), field_end(s, 1))) {
        (1int, false)
    } else if field_start(s, 2) == s.len() {
        (2int, true)
    } else if !is_float_token(s.subrange(field_start(s, 2), field_end(s, 2))) {
        (2int, false)
    } else {
        (3int, true)
    }
}

pub open spec fn row_ok(s: Seq<u8>) -> bool {
    row_error(s).0 == 3
}

/// The parsed row carries exactly the three field tokens of the line.
pub open spec fn row_matches(r: Row, s: Seq<u8>) -> bool {
    &&& r.x@ == s.subrange(field_start(s, 0), field_end(s, 0))
    &&& r.y@ == s.subrange(field_start(s, 1), field_end(s, 1))
    &&& r.z@ == s.subrange(field_start(s, 2), field_end(s, 2))
}

/// The first row index in `[i, cnt)` whose line (at position `1 + index`)
/// is bad, or `cnt` if all are good.
pub open spec fn first_bad_row(lines: Seq<Seq<u8>>, i: int, cnt: int) -> int
    decreases cnt - i,
{
    if i < cnt {
        if !row_ok(lines[i + 1]) {
            i
        } else {
            first_bad_row(lines, i + 1, cnt)
        }
    } else {
        cnt
    }
}

fn scan_ws(s: &Vec<u8>, from: usize) -> (r: usize)
    requires
        from <= s@.len(),
    ensures
        r as int == skip_ws(s@, from as int),
        from <= r <= s@.len(),
{
    let mut j = from;
    while j < s.len() && (s[j] == 32 || s[j] == 9 || s[j] == 13 || s[j] == 10)
        invariant
            from <= j <= s@.len(),
            skip_ws(s@, from as int) == skip_ws(s@, j as int),
        decreases s@.len() - j,
    {
        j += 1;
    }
    j
}

fn scan_token(s: &Vec<u8>, from: usize) -> (r: usize)
    requires
        from <= s@.len(),
    ensures
        r as int == token_end(s@, from as int),
        from <= r <= s@.len(),
{
    let mut j = from;
    while j < s.len() && !(s[j] == 32 || s[j] == 9 || s[j] == 13 || s[j] == 10)
        invariant
            from <= j <= s@.len(),
            token_end(s@, from as int) == token_end(s@, j as int),
        decreases s@.len() - j,
    {
        j += 1;
    }
    j
}

fn scan_digits(s: &Vec<u8>, from: usize) -> (r: usize)
    requires
        from <= s@.len(),
    ensures
        r as int == digits_end(s@, from as int),
        from <= r <= s@.len(),
{
    let mut j = from;
    while j < s.len() && 48 <= s[j] && s[j] <= 57
        invariant
            from <= j <= s@.len(),
            digits_end(s@, from as int) == digits_end(s@, j as int),
        decreases s@.len() - j,
    {
        j += 1;
    }
    j
}

fn copy_range(s: &Vec<u8>, a: usize, b: usize) -> (r: Vec<u8>)
    requires
        a <= b <= s@.len(),
    ensures
        r@ == s@.subrange(a as int, b as int),
{
    let mut out: Vec<u8> = Vec::new();
    let mut j = a;
    while j < b
        invariant
            a <= j <= b <= s@.len(),
            out@.len() == j - a,
            forall|k: int| 0 <= k < out@.len() ==> out@[k] == s@[a + k],
        decreases b - j,
    {
        out.push(s[j]);
        j += 1;
    }
    proof {
        assert(out@ =~= s@.subrange(a as int, b as int));
    }
    out
}

fn byte_lower(b: u8) -> (r: u8)
    ensures
        r == lower(b),
{
    if 65 <= b && b <= 90 {
        b + 32
    } else {
        b
    }
}

fn check_exp(s: &Vec<u8>, j: usize) -> (r: bool)
    requires
        j <= s@.len(),
    ensures
        r == is_exp_from(s@, j as int),
{
    if j >= s.len() {
        return false;
    }
    if s[j] != 101 && s[j] != 69 {
        return false;
    }
    let mut k = j + 1;
    if k < s.len() && (s[k] == 43 || s[k] == 45) {
        k += 1;
    }
    if k >= s.len() {
        return false;
    }
    let d = scan_digits(s, k);
    d == s.len()
}

/// Whether `tok` is a floating-point token (the grammar `str::parse`
/// accepts for doubles).
pub fn check_float_token(tok: &Vec<u8>) -> (r: bool)
    ensures
        r == is_float_token(tok@),
{
    let n = tok.len();
    let i: usize = if n > 0 && (tok[0] == 43 || tok[0] == 45) {
        1
    } else {
        0
    };

    if n - i == 3 {
        let a = byte_lower(tok[i]);
        let b = byte_lower(tok[i + 1]);
        let c = byte_lower(tok[i + 2]);
        if a == 105 && b == 110 && c == 102 {
            proof {
                assert(word_from(tok@, i as int, seq![105, 110, 102]));
            }
            return true;
        }
        if a == 110 && b == 97 && c == 110 {
            proof {
                assert(word_from(tok@, i as int, seq![110, 97, 110]));
            }
            return true;
        }
    }
    if n - i == 8 {
        let w = [
            byte_lower(tok[i]),
            byte_lower(tok[i + 1]),
            byte_lower(tok[i + 2]),
            byte_lower(tok[i + 3]),
            byte_lower(tok[i + 4]),
            byte_lower(tok[i + 5]),
            byte_lower(tok[i + 6]),
            byte_lower(tok[i + 7]),
        ];
        if w[0] == 105 && w[1] == 110 && w[2] == 102 && w[3] == 105 && w[4] == 110 && w[5]
            == 105 && w[6] == 116 && w[7] == 121 {
            proof {
                assert(word_from(
                    tok@,
                    i as int,
                    seq![105, 110, 102, 105, 110, 105, 116, 121],
                ));
            }
            return true;
        }
    }

    proof {
        let ii = i as int;
        assert(!word_from(tok@, ii, seq![105, 110, 102])) by {
            if word_from(tok@, ii, seq![105, 110, 102]) {
                assert(lower(tok@[ii + 0]) == seq![105u8, 110, 102][0]);
                assert(lower(tok@[ii + 1]) == seq![105u8, 110, 102][1]);
                assert(lower(tok@[ii + 2]) == seq![105u8, 110, 102][2]);
            }
        }
        assert(!word_from(tok@, ii, seq![110, 97, 110])) by {
            if word_from(tok@, ii, seq![110, 97, 110]) {
                assert(lower(tok@[ii + 0]) == seq![110u8, 97, 110][0]);
                assert(lower(tok@[ii + 1]) == seq![110u8, 97, 110][1]);
                assert(lower(tok@[ii + 2]) == seq![110u8, 97, 110][2]);
            }
        }
        assert(!word_from(tok@, ii, seq![105, 110, 102, 105, 110, 105, 116, 121])) by {
            if word_from(tok@, ii, seq![105, 110, 102, 105, 110, 105, 116, 121]) {
                let w = seq![105u8, 110, 102, 105, 110, 105, 116, 121];
                assert(lower(tok@[ii + 0]) == w[0]);
                assert(lower(tok@[ii + 1]) == w[1]);
                assert(lower(tok@[ii + 2]) == w[2]);
                assert(lower(tok@[ii + 3]) == w[3]);
                assert(lower(tok@[ii + 4]) == w[4]);
                assert(lower(tok@[ii + 5]) == w[5]);
                assert(lower(tok@[ii + 6]) == w[6]);
                assert(lower(tok@[ii + 7]) == w[7]);
            }
        }
    }
    let d1 = scan_digits(tok, i);
    if d1 < n && tok[d1] == 46 {
        let d2 = scan_digits(tok, d1 + 1);
        if !(d1 > i || d2 > d1 + 1) {
            return false;
        }
        if d2 == n {
            return true;
        }
        check_exp(tok, d2)
    } else {
        if d1 == i {
            return false;
        }
        if d1 == n {
            return true;
        }
        check_exp(tok, d1)
    }
}

/// Splits one coordinate line into its three field tokens and checks each
/// against the float grammar; `row` only labels the reported error.
pub fn parse_row(line: &Vec<u8>, row: usize) -> (r: Result<Row, LoadError>)
    ensures
        ({
            let e = row_error(line@);
            &&& (e.0 == 3 ==> r is Ok && row_matches(r.unwrap(), line@))
            &&& (e.0 < 3 && e.1 ==> r == Result::<Row, LoadError>::Err(
                LoadError::Parse { row, field: e.0 as usize },
            ))
            &&& (e.0 < 3 && !e.1 ==> r == Result::<Row, LoadError>::Err(
                LoadError::ParseFloat { row, field: e.0 as usize },
            ))
        }),
{
    let n = line.len();

    let s0 = scan_ws(line, 0);
    if s0 == n {
        return Err(LoadError::Parse { row, field: 0 });
    }
    let e0 = scan_token(line, s0);
    let x = copy_range(line, s0, e0);
    if !check_float_token(&x) {
        return Err(LoadError::ParseFloat { row, field: 0 });
    }

    let s1 = scan_ws(line, e0);
    if s1 == n {
        return Err(LoadError::Parse { row, field: 1 });
    }
    let e1 = scan_token(line, s1);
    let y = copy_range(line, s1, e1);
    if !check_float_token(&y) {
        return Err(LoadError::ParseFloat { row, field: 1 });
    }

    let s2 = scan_ws(line, e1);
    if s2 == n {
        return Err(LoadError::Parse { row, field: 2 });
    }
    let e2 = scan_token(line, s2);
    let z = copy_range(line, s2, e2);
    if !check_float_token(&z) {
        return Err(LoadError::ParseFloat { row, field: 2 });
    }

    Ok(Row { x, y, z })
}

proof fn lemma_digits_in_range(s: Seq<u8>, i: int, j: int)
    requires
        0 <= i <= j < digits_end(s, i),
    ensures
        is_digit(s[j]),
    decreases j - i,
{
    if i < j {
        lemma_digits_in_range(s, i + 1, j);
    }
}

proof fn lemma_decimal_value_ge_acc(s: Seq<u8>, i: int, end: int, acc: int)
    requires
        0 <= acc,
        0 <= i,
        end <= digits_end(s, i),
    ensures
        decimal_value(s, i, end, acc) >= acc,
    decreases end - i,
{
    if i < end {
        lemma_digits_in_range(s, i, i);
        lemma_decimal_value_ge_acc(s, i + 1, end, acc * 10 + (s[i] - 48));
    }
}

/// Parses the leading vertex-count line: optional surrounding whitespace,
/// an optional plus sign, then decimal digits, as `str::parse` for an
/// unsigned count accepts after trimming. Fails when the line is not of
/// that shape or the value does not fit the machine word.
pub fn parse_count(line: &Vec<u8>) -> (r: Result<usize, LoadError>)
    ensures
        r is Ok ==> header_ok(line@) && r.unwrap() == header_count(line@),
        r is Err ==> r == Result::<usize, LoadError>::Err(LoadError::ParseInt) && (!header_ok(
            line@,
        ) || header_count(line@) > usize::MAX),
{
    let n = line.len();
    let a0 = scan_ws(line, 0);
    let a = if a0 < n && line[a0] == 43 {
        a0 + 1
    } else {
        a0
    };
    let d = scan_digits(line, a);
    if d == a {
        return Err(LoadError::ParseInt);
    }
    if scan_ws(line, d) != n {
        return Err(LoadError::ParseInt);
    }

    let mut v: usize = 0;
    let mut j = a;
    while j < d
        invariant
            a <= j <= d,
            d as int == digits_end(line@, a as int),
            d <= line@.len(),
            header_count(line@) == decimal_value(line@, j as int, d as int, v as int),
            header_digits_start(line@) == a,
            digits_end(line@, j as int) == d as int,
        decreases d - j,
    {
        proof {
            lemma_digits_in_range(line@, a as int, j as int);
        }
        let b = line[j];
        let dig = (b - 48) as usize;
        if v > usize::MAX / 10 {
            proof {
                lemma_decimal_value_ge_acc(
                    line@,
                    j as int + 1,
                    d as int,
                    v as int * 10 + dig as int,
                );
            }
            return Err(LoadError::ParseInt);
        }
        let v10 = v * 10;
        if v10 > usize::MAX - dig {
            proof {
                lemma_decimal_value_ge_acc(
                    line@,
                    j as int + 1,
                    d as int,
                    v as int * 10 + dig as int,
                );
            }
            return Err(LoadError::ParseInt);
        }
        v = v10 + dig;
        j += 1;
    }

    Ok(v)
}

/// Parses a point cloud, already split into lines by the reader: the first
/// line declares the row count, each following line holds one `x y z`
/// coordinate row. The first error aborts the parse: a bad count line, the
/// input ending early (an exhausted reader), a missing field, or a field
/// that is not a floating-point token.
pub fn parse_point_cloud(lines: &Vec<Vec<u8>>) -> (r: Result<Vec<Row>, LoadError>)
    ensures
        lines@.len() == 0 ==> r == Result::<Vec<Row>, LoadError>::Err(LoadError::ParseInt),
        lines@.len() > 0 ==> {
            let h = lines@[0]@;
            &&& (!header_ok(h) || header_count(h) > usize::MAX) ==> r == Result::<
                Vec<Row>,
                LoadError,
            >::Err(LoadError::ParseInt)
            &&& (header_ok(h) && header_count(h) <= usize::MAX) ==> {
                let cnt = header_count(h);
                &&& lines@.len() < 1 + cnt ==> r == Result::<Vec<Row>, LoadError>::Err(
                    LoadError::IO,
                )
                &&& lines@.len() >= 1 + cnt ==> {
                    let b = first_bad_row(lines@.map_values(|l: Vec<u8>| l@), 0, cnt);
                    &&& b < cnt ==> {
                        let e = row_error(lines@[b + 1]@);
                        &&& (e.1 ==> r == Result::<Vec<Row>, LoadError>::Err(
                            LoadError::Parse { row: b as usize, field: e.0 as usize },
                        ))
                        &&& (!e.1 ==> r == Result::<Vec<Row>, LoadError>::Err(
                            LoadError::ParseFloat { row: b as usize, field: e.0 as usize },
                        ))
                    }
                    &&& b == cnt ==> r is Ok && r.unwrap()@.len() == cnt && (forall|i: int|
                        0 <= i < cnt ==> row_matches(#[trigger] r.unwrap()@[i], lines@[i + 1]@))
                }
            }
        },
{
    if lines.len() == 0 {
        return Err(LoadError::ParseInt);
    }
    let cnt = match parse_count(&lines[0]) {
        Ok(c) => c,
        Err(e) => { return Err(e) },
    };
    if lines.len() < 1 || cnt > lines.len() - 1 {
        return Err(LoadError::IO);
    }

    let ghost lseq = lines@.map_values(|l: Vec<u8>| l@);
    let mut out: Vec<Row> = Vec::new();
    let mut i: usize = 0;
    while i < cnt
        invariant
            i <= cnt,
            cnt + 1 <= lines@.len(),
            lines@.len() > 0,
            header_ok(lines@[0]@),
            cnt as int == header_count(lines@[0]@),
            lseq == lines@.map_values(|l: Vec<u8>| l@),
            out@.len() == i,
            forall|j: int| 0 <= j < i ==> row_matches(#[trigger] out@[j], lines@[j + 1]@),
            first_bad_row(lseq, 0, cnt as int) == first_bad_row(lseq, i as int, cnt as int),
        decreases cnt - i,
    {
        proof {
            assert(lseq[i as int + 1] == lines@[i as int + 1]@);
        }
        match parse_row(&lines[i + 1], i) {
            Ok(row) => {
                out.push(row);
            },
            Err(e) => {
                proof {
                    assert(!row_ok(lseq[i as int + 1]));
                    assert(first_bad_row(lseq, i as int, cnt as int) == i as int);
                }
                return Err(e);
            },
        }
        i += 1;
    }

    Ok(out)
}

/// Mesh loading from a face-list text format is not implemented; as in
/// the rest of this design, the stub hands back the empty mesh whatever
/// the path names.
pub fn load_off_mesh(path: &str) -> (r: TriangleMesh)
    ensures
        r.triangles@.len() == 0,
        r.vertices@.len() == 1,
{
    let _ = path;
    TriangleMesh::default()
}

} // verus!
