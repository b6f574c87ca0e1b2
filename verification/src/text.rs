//! Line and whitespace-field splitting of raw listing text, verified against
//! recursive specifications over character sequences.
use vstd::prelude::*;

verus! {

/// The Unicode whitespace characters, as `str::split_whitespace` separates on.
pub open spec fn is_space(c: char) -> bool {
    let u = c as u32;
    (9 <= u && u <= 13) || u == 32 || u == 0x85 || u == 0xA0 || u == 0x1680 || (0x2000 <= u
        && u <= 0x200A) || u == 0x2028 || u == 0x2029 || u == 0x202F || u == 0x205F || u == 0x3000
}

/// Executable test matching `is_space`.
pub fn is_space_char(c: char) -> (r: bool)
    ensures
        r == is_space(c),
{
    let u = c as u32;
    (9 <= u && u <= 13) || u == 32 || u == 0x85 || u == 0xA0 || u == 0x1680 || (0x2000 <= u
        && u <= 0x200A) || u == 0x2028 || u == 0x2029 || u == 0x202F || u == 0x205F || u == 0x3000
}

/// Length of the leading run of non-whitespace characters.
pub open spec fn token_len(s: Seq<char>) -> nat
    decreases s.len(),
{
    if s.len() == 0 || is_space(s[0]) {
        0
    } else {
        1 + token_len(s.skip(1))
    }
}

/// The whitespace-separated fields of a line, in order.
pub open spec fn spec_fields(s: Seq<char>) -> Seq<Seq<char>>
    decreases s.len(),
    via spec_fields_decreases
{
    if s.len() == 0 {
        Seq::empty()
    } else if is_space(s[0]) {
        spec_fields(s.skip(1))
    } else {
        seq![s.take(token_len(s) as int)] + spec_fields(s.skip(token_len(s) as int))
    }
}

proof fn lemma_token_len_le(s: Seq<char>)
    ensures
        token_len(s) <= s.len(),
    decreases s.len(),
{
    if s.len() == 0 || is_space(s[0]) {
    } else {
        lemma_token_len_le(s.skip(1));
    }
}

#[via_fn]
proof fn spec_fields_decreases(s: Seq<char>) {
    if s.len() > 0 && !is_space(s[0]) {
        assert(token_len(s) == 1 + token_len(s.skip(1)));
        lemma_token_len_le(s);
    }
}

/// The views of a vector of strings.
pub open spec fn views_of_strings(s: Seq<String>) -> Seq<Seq<char>> {
    s.map_values(|x: String| x@)
}

proof fn lemma_token_len_scan(s: Seq<char>, j: int)
    requires
        0 <= j <= s.len(),
        forall|k: int| 0 <= k < j ==> !is_space(s[k]),
        j < s.len() ==> is_space(s[j]),
    ensures
        token_len(s) == j,
    decreases j,
{
    if j == 0 {
    } else {
        lemma_token_len_scan(s.skip(1), j - 1);
    }
}

proof fn lemma_fields_step(s: Seq<char>, pos: int, j: int)
    requires
        0 <= pos <= s.len(),
        pos <= j <= s.len(),
        pos < j,
        !is_space(s[pos]),
        forall|k: int| pos <= k < j ==> !is_space(s[k]),
        j < s.len() ==> is_space(s[j]),
    ensures
        spec_fields(s.skip(pos)) == seq![s.subrange(pos, j)] + spec_fields(s.skip(j)),
{
    let t = s.skip(pos);
    assert forall|k: int| 0 <= k < j - pos implies !is_space(t[k]) by {
        assert(t[k] == s[k + pos]);
    }
    lemma_token_len_scan(t, j - pos);
    assert(t.take(token_len(t) as int) =~= s.subrange(pos, j));
    assert(t.skip(token_len(t) as int) =~= s.skip(j));
}

proof fn lemma_fields_skip_space(s: Seq<char>, pos: int)
    requires
        0 <= pos < s.len(),
        is_space(s[pos]),
    ensures
        spec_fields(s.skip(pos)) == spec_fields(s.skip(pos + 1)),
{
    let t = s.skip(pos);
    assert(t[0] == s[pos]);
    assert(t.skip(1) =~= s.skip(pos + 1));
}

/// Splits a line on whitespace, as `str::split_whitespace` does.
pub fn split_fields(line: &str) -> (r: Vec<String>)
    ensures
        views_of_strings(r@) == spec_fields(line@),
{
    let n = line.unicode_len();
    let mut r: Vec<String> = Vec::new();
    let mut pos: usize = 0;
    proof {
        assert(line@.skip(0) =~= line@);
        assert(views_of_strings(r@) + spec_fields(line@) =~= spec_fields(line@));
    }
    while pos < n
        invariant
            pos <= n,
            n == line@.len(),
            spec_fields(line@) == views_of_strings(r@) + spec_fields(line@.skip(pos as int)),
        decreases n - pos,
    {
        if is_space_char(line.get_char(pos)) {
            proof {
                lemma_fields_skip_space(line@, pos as int);
            }
            pos = pos + 1;
        } else {
            let mut j: usize = pos + 1;
            while j < n && !is_space_char(line.get_char(j))
                invariant
                    pos < j <= n,
                    n == line@.len(),
                    forall|k: int| pos <= k < j ==> !is_space(line@[k]),
                decreases n - j,
            {
                j = j + 1;
            }
            let field = line.substring_char(pos, j);
            r.push(String::from_str(field));
            proof {
                lemma_fields_step(line@, pos as int, j as int);
                assert(views_of_strings(r@) =~= views_of_strings(r@.drop_last()) + seq![
                    line@.subrange(pos as int, j as int),
                ]);
                assert(views_of_strings(r@) + spec_fields(line@.skip(j as int))
                    =~= views_of_strings(r@.drop_last()) + spec_fields(line@.skip(pos as int)));
            }
            pos = j;
        }
    }
    proof {
        assert(line@.skip(pos as int) =~= Seq::<char>::empty());
        assert(views_of_strings(r@) =~= views_of_strings(r@) + spec_fields(line@.skip(pos as int)));
    }
    r
}

/// Length of the leading piece up to and including the first newline,
/// or the whole sequence if it has none.
pub open spec fn piece_len(s: Seq<char>) -> nat
    decreases s.len(),
{
    if s.len() == 0 {
        0
    } else if s[0] == '\n' {
        1
    } else {
        1 + piece_len(s.skip(1))
    }
}

/// One piece with its line terminator removed: a trailing newline is dropped,
/// and a carriage return just before it is dropped with it.
pub open spec fn trim_piece(piece: Seq<char>) -> Seq<char> {
    if piece.len() > 0 && piece[piece.len() - 1] == '\n' {
        let p = piece.take(piece.len() - 1);
        if p.len() > 0 && p[p.len() - 1] == '\r' {
            p.take(p.len() - 1)
        } else {
            p
        }
    } else {
        piece
    }
}

/// The lines of a text, as `str::lines` yields them.
pub open spec fn spec_lines(s: Seq<char>) -> Seq<Seq<char>>
    decreases s.len(),
    via spec_lines_decreases
{
    if s.len() == 0 {
        Seq::empty()
    } else {
        seq![trim_piece(s.take(piece_len(s) as int))] + spec_lines(s.skip(piece_len(s) as int))
    }
}

proof fn lemma_piece_len_le(s: Seq<char>)
    ensures
        piece_len(s) <= s.len(),
    decreases s.len(),
{
    if s.len() == 0 || s[0] == '\n' {
    } else {
        lemma_piece_len_le(s.skip(1));
    }
}

#[via_fn]
proof fn spec_lines_decreases(s: Seq<char>) {
    if s.len() > 0 {
        if s[0] != '\n' {
            assert(piece_len(s) == 1 + piece_len(s.skip(1)));
        }
        lemma_piece_len_le(s);
    }
}

proof fn lemma_piece_len_scan(s: Seq<char>, j: int)
    requires
        0 <= j <= s.len(),
        forall|k: int| 0 <= k < j ==> s[k] != '\n',
        j < s.len() ==> s[j] == '\n',
    ensures
        piece_len(s) == if j < s.len() {
            j + 1
        } else {
            j
        },
    decreases j,
{
    if j == 0 {
    } else {
        lemma_piece_len_scan(s.skip(1), j - 1);
    }
}

proof fn lemma_lines_step(s: Seq<char>, pos: int, j: int, line_end: int, next: int)
    requires
        0 <= pos < s.len(),
        pos <= j <= s.len(),
        forall|k: int| pos <= k < j ==> s[k] != '\n',
        j < s.len() ==> s[j] == '\n',
        next == if j < s.len() {
            j + 1
        } else {
            j
        },
        line_end == if j < s.len() && j > pos && s[j - 1] == '\r' {
            j - 1
        } else {
            j
        },
    ensures
        spec_lines(s.skip(pos)) == seq![s.subrange(pos, line_end)] + spec_lines(s.skip(next)),
{
    let t = s.skip(pos);
    assert forall|k: int| 0 <= k < j - pos implies t[k] != '\n' by {
        assert(t[k] == s[k + pos]);
    }
    lemma_piece_len_scan(t, j - pos);
    let piece = t.take(piece_len(t) as int);
    assert(trim_piece(piece) =~= s.subrange(pos, line_end));
    assert(t.skip(piece_len(t) as int) =~= s.skip(next));
}

/// Splits a text into its lines, as `str::lines` does.
pub fn split_lines(text: &str) -> (r: Vec<String>)
    ensures
        views_of_strings(r@) == spec_lines(text@),
{
    let n = text.unicode_len();
    let mut r: Vec<String> = Vec::new();
    let mut pos: usize = 0;
    proof {
        assert(text@.skip(0) =~= text@);
        assert(views_of_strings(r@) + spec_lines(text@) =~= spec_lines(text@));
    }
    while pos < n
        invariant
            pos <= n,
            n == text@.len(),
            spec_lines(text@) == views_of_strings(r@) + spec_lines(text@.skip(pos as int)),
        decreases n - pos,
    {
        let mut j: usize = pos;
        while j < n && text.get_char(j) != '\n'
            invariant
                pos <= j <= n,
                n == text@.len(),
                forall|k: int| pos <= k < j ==> text@[k] != '\n',
            decreases n - j,
        {
            j = j + 1;
        }
        let line_end = if j < n && j > pos && text.get_char(j - 1) == '\r' {
            j - 1
        } else {
            j
        };
        let line = text.substring_char(pos, line_end);
        r.push(String::from_str(line));
        let next = if j < n {
            j + 1
        } else {
            j
        };
        proof {
            lemma_lines_step(text@, pos as int, j as int, line_end as int, next as int);
            assert(views_of_strings(r@) =~= views_of_strings(r@.drop_last()) + seq![
                text@.subrange(pos as int, line_end as int),
            ]);
            assert(views_of_strings(r@) + spec_lines(text@.skip(next as int))
                =~= views_of_strings(r@.drop_last()) + spec_lines(text@.skip(pos as int)));
        }
        pos = next;
    }
    proof {
        assert(text@.skip(pos as int) =~= Seq::<char>::empty());
        assert(views_of_strings(r@) =~= views_of_strings(r@) + spec_lines(text@.skip(pos as int)));
    }
    r
}

} // verus!
