//! Splitting text into lines.

use vstd::prelude::*;

verus! {

/// The pieces of `s` between newline characters, the last one possibly
/// empty.
pub open spec fn pieces(s: Seq<char>) -> Seq<Seq<char>>
    decreases s.len(),
{
    if s.len() == 0 {
        seq![Seq::<char>::empty()]
    } else {
        let p = pieces(s.drop_last());
        if s.last() == '\n' {
            p.push(Seq::<char>::empty())
        } else {
            p.update(p.len() - 1, p.last().push(s.last()))
        }
    }
}

/// `l` without one trailing carriage return.
pub open spec fn strip_cr(l: Seq<char>) -> Seq<char> {
    if l.len() > 0 && l.last() == '\r' {
        l.drop_last()
    } else {
        l
    }
}

/// The lines of `s`: split at each `\n`, with the `\r` of a `\r\n` ending
/// taken off, and no empty line after a final line ending.
pub open spec fn lines_of(s: Seq<char>) -> Seq<Seq<char>> {
    let p = pieces(s);
    let body = p.drop_last().map_values(|l: Seq<char>| strip_cr(l));
    if p.last().len() == 0 {
        body
    } else {
        body.push(p.last())
    }
}

proof fn lemma_pieces_nonempty(s: Seq<char>)
    ensures
        pieces(s).len() >= 1,
    decreases s.len(),
{
    if s.len() > 0 {
        lemma_pieces_nonempty(s.drop_last());
    }
}

/// Returns the characters of `v` as a string.
fn string_of(v: &Vec<char>) -> (r: String)
    ensures
        r@ == v@,
{
    let mut r = String::new();
    for i in 0..v.len()
        invariant
            r@ == v@.take(i as int),
    {
        r.push(v[i]);
        assert(v@.take(i + 1) =~= v@.take(i as int).push(v@[i as int]));
    }
    assert(v@.take(v@.len() as int) =~= v@);
    r
}

/// Returns the lines of `s`.
pub fn split_lines(s: &str) -> (r: Vec<String>)
    ensures
        r@.map_values(|l: String| l@) == lines_of(s@),
{
    let mut done: Vec<String> = Vec::new();
    let mut cur: Vec<char> = Vec::new();
    proof {
        lemma_pieces_nonempty(Seq::<char>::empty());
    }
    let ghost mut seen: Seq<char> = Seq::empty();
    for c in it: s.chars()
        invariant
            it.seq() == s@,
            seen == s@.take(it.index() as int),
            done@.map_values(|l: String| l@) == pieces(seen).drop_last().map_values(
                |l: Seq<char>| strip_cr(l),
            ),
            cur@ == pieces(seen).last(),
            pieces(seen).len() >= 1,
    {
        let ghost before = seen;
        let ghost after = seen.push(c);
        assert(after.drop_last() =~= before);
        proof {
            lemma_pieces_nonempty(before);
        }
        if c == '\n' {
            let ghost done_before = done@.map_values(|l: String| l@);
            if cur.len() > 0 && cur[cur.len() - 1] == '\r' {
                cur.pop();
            }
            assert(cur@ == strip_cr(pieces(before).last()));
            let line = string_of(&cur);
            let ghost line_view = line@;
            done.push(line);
            assert(done@.map_values(|l: String| l@) =~= done_before.push(line_view));
            assert(pieces(before).map_values(|l: Seq<char>| strip_cr(l)) =~= pieces(
                before,
            ).drop_last().map_values(|l: Seq<char>| strip_cr(l)).push(
                strip_cr(pieces(before).last()),
            ));
            cur = Vec::new();
            proof {
                seen = after;
            }
            assert(pieces(after).drop_last() =~= pieces(before));
            assert(done@.map_values(|l: String| l@) =~= pieces(after).drop_last().map_values(
                |l: Seq<char>| strip_cr(l),
            ));
        } else {
            cur.push(c);
            proof {
                seen = after;
            }
            assert(pieces(after).drop_last() =~= pieces(before).drop_last());
        }
    }
    assert(seen =~= s@);
    proof {
        lemma_pieces_nonempty(s@);
    }
    if cur.len() > 0 {
        let line = string_of(&cur);
        done.push(line);
        assert(done@.map_values(|l: String| l@) =~= lines_of(s@));
    } else {
        assert(done@.map_values(|l: String| l@) =~= lines_of(s@));
    }
    done
}

} // verus!
