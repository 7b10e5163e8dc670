use vstd::prelude::*;

use crate::text::{chars_of, matches_at, occurs_at, slice_of, texts};

verus! {

/// The pieces of `s` between newlines, as `split('\n')` gives them: at
/// least one, the last one what follows the last newline.
pub open spec fn split_newlines(s: Seq<char>) -> Seq<Seq<char>>
    decreases s.len(),
{
    if s.len() == 0 {
        seq![Seq::empty()]
    } else {
        let prev = split_newlines(s.drop_last());
        if s.last() == '\n' {
            prev.push(Seq::empty())
        } else {
            prev.update(prev.len() - 1, prev.last().push(s.last()))
        }
    }
}

/// A line that ended in a newline loses one carriage return before it.
pub open spec fn strip_cr(l: Seq<char>) -> Seq<char> {
    if l.len() > 0 && l.last() == '\r' {
        l.drop_last()
    } else {
        l
    }
}

/// The lines of a text, as `str::lines` reads them: split at newlines, a
/// carriage return before a newline dropped, and no empty line after a
/// final newline.
pub open spec fn lines_of(s: Seq<char>) -> Seq<Seq<char>> {
    let p = split_newlines(s);
    let body = p.drop_last().map_values(|l: Seq<char>| strip_cr(l));
    if p.last().len() == 0 {
        body
    } else {
        body.push(p.last())
    }
}

/// Lines joined with a newline between each two.
pub open spec fn join_lines(ls: Seq<Seq<char>>) -> Seq<char>
    decreases ls.len(),
{
    if ls.len() == 0 {
        Seq::empty()
    } else if ls.len() == 1 {
        ls[0]
    } else {
        join_lines(ls.drop_last()) + "\n"@ + ls.last()
    }
}

/// A line that sets the license key: it begins with `eula=`.
pub open spec fn is_license_line(l: Seq<char>) -> bool {
    occurs_at(l, "eula="@, 0)
}

/// The line the license key is set to when the license is accepted.
pub open spec fn accepted_line() -> Seq<char> {
    "eula=true"@
}

/// A line as it reads once the license is accepted.
pub open spec fn rewrite_line(l: Seq<char>) -> Seq<char> {
    if is_license_line(l) {
        accepted_line()
    } else {
        l
    }
}

/// The lines of the file once the license is accepted.
pub open spec fn accepted_lines(s: Seq<char>) -> Seq<Seq<char>> {
    lines_of(s).map_values(|l: Seq<char>| rewrite_line(l))
}

/// A line as it is written before a newline: one that itself ends in a
/// carriage return gets a second one, which reading takes off again.
pub open spec fn terminated(l: Seq<char>) -> Seq<char> {
    if l.len() > 0 && l.last() == '\r' {
        l.push('\r')
    } else {
        l
    }
}

/// The pieces between newlines in which lines are written: each line, and
/// after an empty last line one more empty piece, so that it is followed
/// by a newline and reads back.
pub open spec fn written_pieces(ls: Seq<Seq<char>>) -> Seq<Seq<char>> {
    let body = ls.drop_last().map_values(|l: Seq<char>| terminated(l));
    if ls.len() == 0 {
        Seq::empty()
    } else if ls.last().len() == 0 {
        body.push(Seq::empty()).push(Seq::empty())
    } else {
        body.push(ls.last())
    }
}

/// Lines written as text: joined by newlines, with no final newline unless
/// the last line is empty.
pub open spec fn written_text(ls: Seq<Seq<char>>) -> Seq<char> {
    join_lines(written_pieces(ls))
}

/// The file once the license is accepted.
pub open spec fn accepted_license(s: Seq<char>) -> Seq<char> {
    written_text(accepted_lines(s))
}

/// Lines that a plain join by newlines writes so that they read back: the
/// last one is not empty and no other one ends in a carriage return.
pub open spec fn plainly_joinable(ls: Seq<Seq<char>>) -> bool {
    ls.len() == 0 || (ls.last().len() > 0 && forall|i: int|
        0 <= i < ls.len() - 1 ==> terminated(#[trigger] ls[i]) == ls[i])
}

/// Splitting always gives at least one piece.
pub proof fn lemma_split_nonempty(s: Seq<char>)
    ensures
        split_newlines(s).len() >= 1,
    decreases s.len(),
{
    if s.len() > 0 {
        lemma_split_nonempty(s.drop_last());
    }
}

fn is_license_chars(l: &Vec<char>, key: &Vec<char>) -> (r: bool)
    requires
        key@ == "eula="@,
    ensures
        r == is_license_line(l@),
{
    matches_at(l, key, 0)
}

/// The lines of a text once the license is accepted, each line that sets
/// the license key replaced by `eula=true`.
fn accepted_line_list(contents: &str) -> (r: Vec<String>)
    ensures
        texts(r@) == accepted_lines(contents@),
{
    let ghost s = contents@;
    let cs = chars_of(contents);
    let key = chars_of("eula=");
    let n = cs.len();
    let mut out: Vec<String> = Vec::new();
    let mut start: usize = 0;
    let mut pos: usize = 0;
    let ghost mut done: Seq<Seq<char>> = Seq::empty();
    assert(s.subrange(0, 0) =~= Seq::<char>::empty());
    assert(split_newlines(s.subrange(0, 0)) =~= seq![Seq::<char>::empty()]);
    assert(done.push(s.subrange(0, 0)) =~= seq![Seq::<char>::empty()]);
    assert(texts(out@) =~= Seq::<Seq<char>>::empty());
    while pos < n
        invariant
            s == contents@,
            cs@ == s,
            key@ == "eula="@,
            n == s.len(),
            start <= pos <= n,
            split_newlines(s.subrange(0, pos as int)) == done.push(
                s.subrange(start as int, pos as int),
            ),
            texts(out@) == done.map_values(|l: Seq<char>| rewrite_line(strip_cr(l))),
        decreases n - pos,
    {
        let ghost prefix = s.subrange(0, pos + 1);
        assert(prefix.drop_last() =~= s.subrange(0, pos as int));
        if cs[pos] == '\n' {
            let ghost piece = s.subrange(start as int, pos as int);
            let end: usize = if pos > start && cs[pos - 1] == '\r' {
                pos - 1
            } else {
                pos
            };
            assert(s.subrange(start as int, end as int) == strip_cr(piece)) by {
                if pos > start && cs@[pos - 1] == '\r' {
                    assert(piece.drop_last() =~= s.subrange(start as int, end as int));
                }
            }
            let line = slice_of(&cs, start, end);
            let t = if is_license_chars(&line, &key) {
                String::from_str("eula=true")
            } else {
                String::from_str(contents.substring_char(start, end))
            };
            let ghost before = out@;
            out.push(t);
            proof {
                assert(texts(out@) =~= texts(before).push(rewrite_line(strip_cr(piece))));
                assert(done.push(piece).map_values(|l: Seq<char>| rewrite_line(strip_cr(l)))
                    =~= done.map_values(|l: Seq<char>| rewrite_line(strip_cr(l))).push(
                    rewrite_line(strip_cr(piece)),
                ));
                done = done.push(piece);
                assert(split_newlines(prefix) == done.push(Seq::<char>::empty()));
                assert(s.subrange(pos + 1, pos + 1) =~= Seq::<char>::empty());
            }
            pos = pos + 1;
            start = pos;
        } else {
            proof {
                let before = split_newlines(s.subrange(0, pos as int));
                assert(before.last() == s.subrange(start as int, pos as int));
                assert(s.subrange(start as int, pos as int).push(cs@[pos as int]) =~= s.subrange(
                    start as int,
                    pos + 1,
                ));
                assert(split_newlines(prefix) =~= done.push(s.subrange(start as int, pos + 1)));
            }
            pos = pos + 1;
        }
    }
    assert(s.subrange(0, n as int) =~= s);
    let ghost p = split_newlines(s);
    let ghost last = s.subrange(start as int, n as int);
    assert(p.drop_last() =~= done);
    let ghost mapped = done.map_values(|l: Seq<char>| rewrite_line(strip_cr(l)));
    assert(done.map_values(|l: Seq<char>| strip_cr(l)).map_values(
        |l: Seq<char>| rewrite_line(l),
    ) =~= mapped);
    if start < n {
        let line = slice_of(&cs, start, n);
        let t = if is_license_chars(&line, &key) {
            String::from_str("eula=true")
        } else {
            String::from_str(contents.substring_char(start, n))
        };
        let ghost before = out@;
        out.push(t);
        assert(texts(out@) =~= texts(before).push(rewrite_line(last)));
        assert(accepted_lines(s) =~= mapped.push(rewrite_line(last)));
    } else {
        assert(last.len() == 0);
        assert(accepted_lines(s) =~= mapped);
    }
    out
}

/// Writes lines as text: joined by newlines, with no final newline unless
/// the last line is empty; a line that ends in a carriage return gets a
/// second one before its newline.
pub fn write_lines(ls: &Vec<String>) -> (r: String)
    ensures
        r@ == written_text(texts(ls@)),
{
    let ghost t = texts(ls@);
    let n = ls.len();
    let mut out = String::new();
    if n == 0 {
        assert(written_pieces(t) =~= Seq::<Seq<char>>::empty());
        return out;
    }
    let ghost body = t.drop_last().map_values(|l: Seq<char>| terminated(l));
    let mut i: usize = 0;
    assert(body.subrange(0, 0) =~= Seq::<Seq<char>>::empty());
    while i < n - 1
        invariant
            n == ls@.len(),
            n >= 1,
            t == texts(ls@),
            body == t.drop_last().map_values(|l: Seq<char>| terminated(l)),
            i <= n - 1,
            out@ == join_lines(body.subrange(0, i as int)),
        decreases n - 1 - i,
    {
        let ghost prev = body.subrange(0, i as int);
        let line = ls[i].as_str();
        let cs = chars_of(line);
        if i > 0 {
            out.append("\n");
        }
        out.append(line);
        if cs.len() > 0 && cs[cs.len() - 1] == '\r' {
            out.append("\r");
            proof {
                reveal_strlit("\r");
                assert(out@ =~= (if i > 0 { join_lines(prev) + "\n"@ } else { Seq::empty() })
                    + terminated(t[i as int]));
            }
        } else {
            assert(out@ =~= (if i > 0 { join_lines(prev) + "\n"@ } else { Seq::empty() })
                + terminated(t[i as int]));
        }
        proof {
            let next = body.subrange(0, i + 1);
            assert(next.drop_last() =~= prev);
            assert(next.last() == terminated(t[i as int]));
            if i == 0 {
                assert(next =~= seq![terminated(t[0])]);
            }
        }
        i = i + 1;
    }
    assert(body.subrange(0, (n - 1) as int) =~= body);
    let last = ls[n - 1].as_str();
    let lcs = chars_of(last);
    if lcs.len() == 0 {
        let ghost with_one = body.push(Seq::<char>::empty());
        assert(with_one.drop_last() =~= body);
        if n - 1 > 0 {
            out.append("\n");
        } else {
            assert(with_one =~= seq![Seq::<char>::empty()]);
            assert(out@ =~= Seq::<char>::empty());
        }
        assert(out@ =~= join_lines(with_one));
        out.append("\n");
        assert(with_one.push(Seq::<char>::empty()).drop_last() =~= with_one);
        assert(out@ =~= join_lines(with_one.push(Seq::<char>::empty())));
    } else {
        let ghost pieces = body.push(t.last());
        assert(pieces.drop_last() =~= body);
        if n - 1 > 0 {
            out.append("\n");
        } else {
            assert(pieces =~= seq![t.last()]);
        }
        out.append(last);
        assert(out@ =~= join_lines(pieces));
    }
    out
}

/// Marks the license accepted: every line that begins with the license key
/// becomes `eula=true`, every other line is kept as it was, in its place.
/// The lines are read as `str::lines` reads them and written back joined by
/// newlines (see `write_lines`).
pub fn accept_minecraft_eula(contents: &str) -> (r: String)
    ensures
        r@ == accepted_license(contents@),
{
    let ls = accepted_line_list(contents);
    write_lines(&ls)
}

/// The new contents of the license file, when there is one: its contents
/// with the license accepted. With no file there is nothing to write.
pub fn write_eula(existing: Option<String>) -> (r: Option<String>)
    ensures
        existing is None ==> r is None,
        existing matches Some(c) ==> r matches Some(n) && n@ == accepted_license(c@),
{
    match existing {
        Some(c) => Some(accept_minecraft_eula(c.as_str())),
        None => None,
    }
}

/// A piece of text with no newline in it.
pub open spec fn no_newline(l: Seq<char>) -> bool {
    forall|k: int| 0 <= k < l.len() ==> #[trigger] l[k] != '\n'
}

proof fn lemma_split_no_newline(s: Seq<char>)
    ensures
        split_newlines(s).len() >= 1,
        forall|i: int| 0 <= i < split_newlines(s).len() ==> no_newline(#[trigger] split_newlines(s)[i]),
    decreases s.len(),
{
    if s.len() > 0 {
        lemma_split_no_newline(s.drop_last());
        let prev = split_newlines(s.drop_last());
        if s.last() != '\n' {
            let l = prev.last().push(s.last());
            assert forall|k: int| 0 <= k < l.len() implies #[trigger] l[k] != '\n' by {
                if k < l.len() - 1 {
                    assert(no_newline(prev[prev.len() - 1]));
                }
            }
        }
    }
}

/// Appending text without newlines extends the last piece.
proof fn lemma_split_append(x: Seq<char>, c: Seq<char>)
    requires
        no_newline(c),
    ensures
        split_newlines(x + c) == split_newlines(x).update(
            split_newlines(x).len() - 1,
            split_newlines(x).last() + c,
        ),
    decreases c.len(),
{
    lemma_split_nonempty(x);
    if c.len() == 0 {
        assert(x + c =~= x);
        assert(split_newlines(x).last() + c =~= split_newlines(x).last());
        assert(split_newlines(x).update(split_newlines(x).len() - 1, split_newlines(x).last())
            =~= split_newlines(x));
    } else {
        let d = c.drop_last();
        assert(no_newline(d)) by {
            assert forall|k: int| 0 <= k < d.len() implies #[trigger] d[k] != '\n' by {
                assert(d[k] == c[k]);
            }
        }
        lemma_split_append(x, d);
        assert((x + c).drop_last() =~= x + d);
        assert((x + c).last() == c.last());
        assert(c[c.len() - 1] != '\n');
        let p = split_newlines(x);
        assert((p.last() + d).push(c.last()) =~= p.last() + c);
        assert(p.update(p.len() - 1, p.last() + d).update(p.len() - 1, p.last() + c) =~= p.update(
            p.len() - 1,
            p.last() + c,
        ));
    }
}

/// Splitting joined lines gives the lines back, when none holds a newline.
proof fn lemma_split_join(ls: Seq<Seq<char>>)
    requires
        ls.len() >= 1,
        forall|i: int| 0 <= i < ls.len() ==> no_newline(#[trigger] ls[i]),
    ensures
        split_newlines(join_lines(ls)) == ls,
    decreases ls.len(),
{
    if ls.len() == 1 {
        let e = Seq::<char>::empty();
        lemma_split_append(e, ls[0]);
        assert(e + ls[0] =~= ls[0]);
        assert(split_newlines(e) =~= seq![e]);
        assert(e + ls[0] =~= ls[0]);
        assert(seq![e].update(0, e + ls[0]) =~= ls);
    } else {
        let dl = ls.drop_last();
        assert forall|i: int| 0 <= i < dl.len() implies no_newline(#[trigger] dl[i]) by {
            assert(dl[i] == ls[i]);
        }
        lemma_split_join(dl);
        let a = join_lines(dl) + "\n"@;
        reveal_strlit("\n");
        assert(a.drop_last() =~= join_lines(dl));
        assert(a.last() == '\n');
        assert(split_newlines(a) == dl.push(Seq::<char>::empty()));
        assert(no_newline(ls[ls.len() - 1]));
        lemma_split_append(a, ls.last());
        assert(Seq::<char>::empty() + ls.last() =~= ls.last());
        assert(dl.push(Seq::<char>::empty()).update(dl.len() as int, ls.last()) =~= ls);
    }
}

/// The accepted line begins with the license key and is plain text.
proof fn lemma_accepted_line()
    ensures
        is_license_line(accepted_line()),
        accepted_line().len() == 9,
        terminated(accepted_line()) == accepted_line(),
        no_newline(accepted_line()),
{
    reveal_strlit("eula=true");
    reveal_strlit("eula=");
    assert(accepted_line().subrange(0, 5) =~= "eula="@);
}

/// Reading written lines gives them back, when none holds a newline.
proof fn lemma_written_reads_back(ls: Seq<Seq<char>>)
    requires
        forall|i: int| 0 <= i < ls.len() ==> no_newline(#[trigger] ls[i]),
    ensures
        lines_of(written_text(ls)) == ls,
{
    let q = written_pieces(ls);
    if ls.len() == 0 {
        assert(q =~= Seq::<Seq<char>>::empty());
        assert(split_newlines(Seq::<char>::empty()) =~= seq![Seq::<char>::empty()]);
        assert(lines_of(written_text(ls)) =~= ls);
    } else {
        let body = ls.drop_last().map_values(|l: Seq<char>| terminated(l));
        assert forall|i: int| 0 <= i < body.len() implies no_newline(#[trigger] body[i])
            && strip_cr(body[i]) == ls[i] by {
            let l = ls[i];
            assert(no_newline(l));
            if l.len() > 0 && l.last() == '\r' {
                assert(body[i].drop_last() =~= l);
                assert forall|k: int| 0 <= k < body[i].len() implies #[trigger] body[i][k]
                    != '\n' by {
                    if k < l.len() {
                        assert(body[i][k] == l[k]);
                    }
                }
            }
        }
        assert(no_newline(Seq::<char>::empty()));
        assert(no_newline(ls[ls.len() - 1]));
        assert forall|i: int| 0 <= i < q.len() implies no_newline(#[trigger] q[i]) by {
            if i < body.len() {
                assert(q[i] == body[i]);
            }
        }
        lemma_split_join(q);
        assert(body.map_values(|l: Seq<char>| strip_cr(l)) =~= ls.drop_last());
        if ls.last().len() == 0 {
            let e = Seq::<char>::empty();
            assert(q.drop_last() =~= body.push(e));
            assert(strip_cr(e) == e);
            assert(ls.last() =~= e);
            assert(body.push(e).map_values(|l: Seq<char>| strip_cr(l)) =~= body.map_values(
                |l: Seq<char>| strip_cr(l),
            ).push(e));
            assert(ls.drop_last().push(e) =~= ls);
            assert(q.drop_last().map_values(|l: Seq<char>| strip_cr(l)) =~= ls);
        } else {
            assert(q.drop_last() =~= body);
            assert(ls.drop_last().push(ls.last()) =~= ls);
        }
        assert(lines_of(written_text(ls)) =~= ls);
    }
}

/// The lines of a text hold no newline.
proof fn lemma_lines_no_newline(s: Seq<char>)
    ensures
        forall|i: int| 0 <= i < lines_of(s).len() ==> no_newline(#[trigger] lines_of(s)[i]),
        forall|i: int|
            0 <= i < accepted_lines(s).len() ==> no_newline(#[trigger] accepted_lines(s)[i]),
{
    lemma_split_no_newline(s);
    lemma_accepted_line();
    let p = split_newlines(s);
    let ls = lines_of(s);
    assert forall|i: int| 0 <= i < ls.len() implies no_newline(#[trigger] ls[i]) by {
        assert(no_newline(p[i]));
        if i < p.len() - 1 {
            let l = p[i];
            if l.len() > 0 && l.last() == '\r' {
                assert forall|k: int| 0 <= k < l.drop_last().len() implies #[trigger] l.drop_last()[k]
                    != '\n' by {
                    assert(l.drop_last()[k] == l[k]);
                }
            }
        }
    }
    assert forall|i: int| 0 <= i < accepted_lines(s).len() implies no_newline(
        #[trigger] accepted_lines(s)[i],
    ) by {
        assert(no_newline(ls[i]));
    }
}

/// Accepting the license keeps the file's lines and their order, for any
/// file: reading the result gives as many lines as before, each line that
/// begins with the license key reads `eula=true`, and every other line
/// reads as it did.
pub proof fn law_license_rewrite_keeps_lines(s: Seq<char>)
    ensures
        lines_of(accepted_license(s)) == accepted_lines(s),
        lines_of(accepted_license(s)).len() == lines_of(s).len(),
        forall|i: int|
            0 <= i < lines_of(s).len() && !is_license_line(#[trigger] lines_of(s)[i])
                ==> lines_of(accepted_license(s))[i] == lines_of(s)[i],
        forall|i: int|
            0 <= i < lines_of(s).len() && is_license_line(#[trigger] lines_of(s)[i])
                ==> lines_of(accepted_license(s))[i] == accepted_line(),
{
    lemma_lines_no_newline(s);
    lemma_written_reads_back(accepted_lines(s));
}

/// Whenever the plain join of the accepted lines by newlines reads back
/// (see `plainly_joinable`), that join is what is written: no carriage
/// return and no final newline are added.
pub proof fn law_license_rewrite_is_plain_join(s: Seq<char>)
    requires
        plainly_joinable(accepted_lines(s)),
    ensures
        accepted_license(s) == join_lines(accepted_lines(s)),
{
    let ls = accepted_lines(s);
    if ls.len() > 0 {
        assert(written_pieces(ls) =~= ls);
    } else {
        assert(written_pieces(ls) =~= ls);
    }
}

/// Accepting the license a second time changes nothing.
pub proof fn law_license_rewrite_idempotent(s: Seq<char>)
    ensures
        accepted_license(accepted_license(s)) == accepted_license(s),
{
    law_license_rewrite_keeps_lines(s);
    lemma_accepted_line();
    let als = accepted_lines(s);
    assert(accepted_lines(accepted_license(s)) =~= als) by {
        assert forall|i: int| 0 <= i < als.len() implies rewrite_line(#[trigger] als[i])
            == als[i] by {
            assert(rewrite_line(accepted_line()) == accepted_line());
        }
    }
}

} // verus!
