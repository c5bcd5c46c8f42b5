//! Tables of comma-separated text: the header line, the data lines, the
//! position of a named column, and the feature columns of a run.
use crate::cli::{Args, ArgsView};
use crate::text::{
    chars_of, is_whitespace, lemma_trim_edges, split, split_chars, strings_from, trim, trim_chars,
};
use vstd::prelude::*;

verus! {

/// The lines of a text, as Rust's `str::lines` yields them: split at each
/// `\n`, a `\r` right before a `\n` dropped with it, and no empty last line
/// after a final line ending.
pub open spec fn lines(s: Seq<char>) -> Seq<Seq<char>> {
    let p = split(s, '\n');
    let n = if p.last().len() == 0 {
        p.len() - 1
    } else {
        p.len() as int
    };
    Seq::new(n as nat, |i: int| line_at(p, i))
}

/// The piece `i` of a text split at `\n`, without a `\r` that ended it
/// right before a `\n`.
pub open spec fn line_at(p: Seq<Seq<char>>, i: int) -> Seq<char> {
    if i < p.len() - 1 && p[i].len() > 0 && p[i].last() == '\r' {
        p[i].drop_last()
    } else {
        p[i]
    }
}

/// The trimmed fields of a line.
pub open spec fn fields(line: Seq<char>) -> Seq<Seq<char>> {
    split(line, ',').map_values(|f: Seq<char>| trim(f))
}

/// A table: the header fields, and the fields of each data line that is not
/// blank.
pub struct Frame {
    pub headers: Vec<String>,
    pub rows: Vec<Vec<String>>,
}

pub struct FrameView {
    pub headers: Seq<Seq<char>>,
    pub rows: Seq<Seq<Seq<char>>>,
}

pub open spec fn string_views(v: Seq<String>) -> Seq<Seq<char>> {
    v.map_values(|s: String| s@)
}

impl View for Frame {
    type V = FrameView;

    open spec fn view(&self) -> FrameView {
        FrameView {
            headers: string_views(self.headers@),
            rows: self.rows@.map_values(|r: Vec<String>| string_views(r@)),
        }
    }
}

/// The table that a text holds; none when the text has no line.
pub open spec fn table_of(text: Seq<char>) -> Option<FrameView> {
    let ls = lines(text);
    if ls.len() == 0 {
        None
    } else {
        Some(
            FrameView {
                headers: fields(ls[0]),
                rows: ls.skip(1).filter(|l: Seq<char>| trim(l).len() > 0).map_values(
                    |l: Seq<char>| fields(l),
                ),
            },
        )
    }
}

fn line_fields(line: &[char]) -> (r: Vec<String>)
    ensures
        string_views(r@) == fields(line@),
{
    let pieces = split_chars(line, ',');
    let mut out: Vec<Vec<char>> = Vec::new();
    for i in 0..pieces.len()
        invariant
            pieces@.len() == split(line@, ',').len(),
            forall|k: int|
                0 <= k < pieces@.len() ==> #[trigger] pieces@[k]@ == split(line@, ',')[k],
            out@.len() == i,
            forall|k: int| 0 <= k < i ==> #[trigger] out@[k]@ == trim(split(line@, ',')[k]),
    {
        out.push(trim_chars(pieces[i].as_slice()));
    }
    let r = strings_from(&out);
    assert(string_views(r@) =~= fields(line@));
    r
}

/// The lines of a text.
fn text_lines(text: &[char]) -> (r: Vec<Vec<char>>)
    ensures
        r@.len() == lines(text@).len(),
        forall|k: int| 0 <= k < r@.len() ==> #[trigger] r@[k]@ == lines(text@)[k],
{
    let p = split_chars(text, '\n');
    let ghost ps = split(text@, '\n');
    proof {
        crate::text::lemma_split_nonempty(text@, '\n');
    }
    let n = if p[p.len() - 1].len() == 0 {
        p.len() - 1
    } else {
        p.len()
    };
    let mut out: Vec<Vec<char>> = Vec::new();
    assert(p@[p@.len() - 1]@ == ps.last());
    for i in 0..n
        invariant
            ps == split(text@, '\n'),
            p@.len() == ps.len(),
            ps.len() >= 1,
            forall|k: int| 0 <= k < p@.len() ==> #[trigger] p@[k]@ == ps[k],
            n == lines(text@).len(),
            n <= p@.len(),
            n == (if ps.last().len() == 0 {
                ps.len() - 1
            } else {
                ps.len() as int
            }),
            out@.len() == i,
            forall|k: int| 0 <= k < i ==> #[trigger] out@[k]@ == lines(text@)[k],
    {
        let piece = &p[i];
        let strip = i < p.len() - 1 && piece.len() > 0 && piece[piece.len() - 1] == '\r';
        let mut l: Vec<char> = Vec::new();
        let m = if strip {
            piece.len() - 1
        } else {
            piece.len()
        };
        for j in 0..m
            invariant
                m <= piece@.len(),
                l@ == piece@.take(j as int),
        {
            l.push(piece[j]);
            assert(l@ =~= piece@.take(j + 1));
        }
        proof {
            assert(piece@ == ps[i as int]);
            if piece@.len() > 0 {
                assert(piece@.last() == piece@[piece@.len() - 1]);
            }
            assert(strip == (i < ps.len() - 1 && ps[i as int].len() > 0 && ps[i as int].last()
                == '\r'));
            assert(lines(text@)[i as int] == line_at(ps, i as int));
            if strip {
                assert(l@ =~= piece@.drop_last());
            } else {
                assert(l@ =~= piece@);
            }
            assert(l@ == lines(text@)[i as int]);
        }
        let ghost prev = out@;
        out.push(l);
        assert(forall|k: int| 0 <= k < i ==> out@[k] == prev[k]);
    }
    out
}

/// Reads a table from its text.
pub fn parse_table(text: &str) -> (r: Option<Frame>)
    ensures
        match table_of(text@) {
            None => r is None,
            Some(f) => r matches Some(x) && x@ == f,
        },
{
    let chars = chars_of(text);
    let ls = text_lines(chars.as_slice());
    if ls.len() == 0 {
        return None;
    }
    let headers = line_fields(ls[0].as_slice());
    let ghost all = lines(text@);
    let ghost rest = all.skip(1);
    let mut rows: Vec<Vec<String>> = Vec::new();
    for i in 1..ls.len()
        invariant
            ls@.len() == all.len(),
            forall|k: int| 0 <= k < ls@.len() ==> #[trigger] ls@[k]@ == all[k],
            rest == all.skip(1),
            rows@.map_values(|r: Vec<String>| string_views(r@)) == rest.take(i - 1).filter(
                |l: Seq<char>| trim(l).len() > 0,
            ).map_values(|l: Seq<char>| fields(l)),
    {
        let line = ls[i].as_slice();
        let t = trim_chars(line);
        let ghost before = rows@.map_values(|r: Vec<String>| string_views(r@));
        proof {
            assert(rest.take(i as int).drop_last() =~= rest.take(i - 1));
            assert(rest.take(i as int).last() == line@);
            reveal_with_fuel(Seq::filter, 1);
        }
        if t.len() > 0 {
            let f = line_fields(line);
            rows.push(f);
            assert(rows@.map_values(|r: Vec<String>| string_views(r@)) =~= before.push(
                fields(line@),
            ));
        }
        proof {
            let keep = |l: Seq<char>| trim(l).len() > 0;
            assert(rest.take(i as int).filter(keep) == (if trim(line@).len() > 0 {
                rest.take(i - 1).filter(keep).push(line@)
            } else {
                rest.take(i - 1).filter(keep)
            }));
        }
    }
    assert(rest.take(ls@.len() - 1) =~= rest);
    let r = Frame { headers, rows };
    assert(r@.rows =~= table_of(text@)->Some_0.rows);
    Some(r)
}

/// The position of the last column with the given name: a later column of
/// the same name stands in for an earlier one.
pub open spec fn last_index_of(headers: Seq<Seq<char>>, name: Seq<char>, n: int) -> Option<int>
    decreases n,
{
    if n <= 0 {
        None
    } else if headers[n - 1] == name {
        Some(n - 1)
    } else {
        last_index_of(headers, name, n - 1)
    }
}

/// Where the column of that name is.
pub fn column_index(headers: &[String], name: &str) -> (r: Option<usize>)
    ensures
        match last_index_of(string_views(headers@), name@, headers@.len() as int) {
            Some(i) => r == Some(i as usize),
            None => r is None,
        },
{
    let ghost hs = string_views(headers@);
    let mut n = headers.len();
    while n > 0
        invariant
            n <= headers@.len(),
            hs == string_views(headers@),
            last_index_of(hs, name@, headers@.len() as int) == last_index_of(hs, name@, n as int),
        decreases n,
    {
        let h = chars_of(headers[n - 1].as_str());
        assert(hs[n - 1] == headers@[n - 1]@);
        if crate::text::chars_eq_str(h.as_slice(), name) {
            return Some(n - 1);
        }
        n = n - 1;
    }
    None
}

/// Whether a column holds the target, a weight, a bound or a sequence id.
pub open spec fn is_excluded(a: ArgsView, h: Seq<char>) -> bool {
    ||| h == a.target
    ||| a.weight == Some(h)
    ||| a.target_low == Some(h)
    ||| a.target_high == Some(h)
    ||| a.sequence_id == Some(h)
}

fn opt_eq(o: &Option<String>, h: &[char]) -> (r: bool)
    ensures
        r == (crate::cli::opt_view(*o) == Some(h@)),
{
    match o {
        Some(s) => crate::text::chars_eq_str(h, s.as_str()),
        None => false,
    }
}

/// The feature columns: every column that holds neither the target nor a
/// weight, bound or sequence id.
pub fn infer_features(headers: &[String], args: &Args) -> (r: Vec<String>)
    ensures
        string_views(r@) == string_views(headers@).filter(|h: Seq<char>| !is_excluded(args@, h)),
{
    let ghost hs = string_views(headers@);
    let ghost keep = |h: Seq<char>| !is_excluded(args@, h);
    let mut out: Vec<String> = Vec::new();
    for i in 0..headers.len()
        invariant
            hs == string_views(headers@),
            keep == (|h: Seq<char>| !is_excluded(args@, h)),
            string_views(out@) == hs.take(i as int).filter(keep),
    {
        let h = chars_of(headers[i].as_str());
        let hh = h.as_slice();
        let excluded = crate::text::chars_eq_str(hh, args.target.as_str()) || opt_eq(
            &args.weight,
            hh,
        ) || opt_eq(&args.target_low, hh) || opt_eq(&args.target_high, hh) || opt_eq(
            &args.sequence_id,
            hh,
        );
        let ghost before = string_views(out@);
        proof {
            assert(hs[i as int] == h@);
            assert(hs.take(i + 1).drop_last() =~= hs.take(i as int));
            reveal_with_fuel(Seq::filter, 1);
        }
        if !excluded {
            out.push(headers[i].clone());
            assert(string_views(out@) =~= before.push(h@));
        }
        assert(excluded == is_excluded(args@, h@));
    }
    assert(hs.take(headers@.len() as int) =~= hs);
    out
}

/// Every header and every field of every data row of a table is free of
/// surrounding whitespace: none begins or ends with a whitespace character.
pub proof fn lemma_table_fields_trimmed(text: Seq<char>)
    ensures
        table_of(text) matches Some(f) ==> {
            &&& forall|j: int|
                0 <= j < f.headers.len() && f.headers[j].len() > 0 ==> !is_whitespace(
                    #[trigger] f.headers[j][0],
                ) && !is_whitespace(f.headers[j].last())
            &&& forall|i: int, j: int|
                0 <= i < f.rows.len() && 0 <= j < f.rows[i].len() && f.rows[i][j].len() > 0
                    ==> !is_whitespace(#[trigger] f.rows[i][j][0]) && !is_whitespace(
                    f.rows[i][j].last(),
                )
        },
{
    if let Some(f) = table_of(text) {
        let ls = lines(text);
        assert forall|j: int|
            0 <= j < f.headers.len() && f.headers[j].len() > 0 implies !is_whitespace(
            #[trigger] f.headers[j][0],
        ) && !is_whitespace(f.headers[j].last()) by {
            lemma_trim_edges(split(ls[0], ',')[j]);
        }
        let keep = |l: Seq<char>| trim(l).len() > 0;
        let kept = ls.skip(1).filter(keep);
        assert forall|i: int, j: int|
            0 <= i < f.rows.len() && 0 <= j < f.rows[i].len() && f.rows[i][j].len() > 0
                implies !is_whitespace(#[trigger] f.rows[i][j][0]) && !is_whitespace(
            f.rows[i][j].last(),
        ) by {
            assert(f.rows[i] == fields(kept[i]));
            lemma_trim_edges(split(kept[i], ',')[j]);
        }
    }
}

} // verus!
