//! The word list a target is chosen from: one candidate per line.
use vstd::prelude::*;
use rand::Rng;
use crate::text::{chars_of, push_char, string_of};

verus! {

/// Why no target word could be chosen.
#[derive(Clone, Copy, Debug, PartialEq, Eq, Structural)]
pub enum TargetError {
    /// The word list could not be read.
    SourceUnavailable,
    /// The word list holds no candidate.
    EmptySource,
}

/// The pieces of `s` between line feeds; there is always at least one, and a
/// text that ends in a line feed ends in an empty piece.
pub open spec fn pieces(s: Seq<char>) -> Seq<Seq<char>>
    decreases s.len(),
{
    if s.len() == 0 {
        seq![Seq::<char>::empty()]
    } else {
        let p = pieces(s.drop_last());
        if s.last() == '\n' {
            p.push(Seq::<char>::empty())
        } else {
            p.update(p.len() - 1, p.last().push(s.last()))
        }
    }
}

/// A line without the carriage return that may end it.
pub open spec fn strip_cr(line: Seq<char>) -> Seq<char> {
    if line.len() > 0 && line.last() == '\r' {
        line.drop_last()
    } else {
        line
    }
}

/// The lines of `ps`, each without its carriage return, leaving out empty
/// ones.
pub open spec fn keep_words(ps: Seq<Seq<char>>) -> Seq<Seq<char>>
    decreases ps.len(),
{
    if ps.len() == 0 {
        Seq::empty()
    } else {
        let w = strip_cr(ps.last());
        if w.len() > 0 {
            keep_words(ps.drop_last()).push(w)
        } else {
            keep_words(ps.drop_last())
        }
    }
}

/// The candidate words of a word list.
pub open spec fn candidates_of(s: Seq<char>) -> Seq<Seq<char>> {
    keep_words(pieces(s))
}

/// Appends the word in `line[..n]`, without a final carriage return, to
/// `out` unless it is empty.
fn finish_line(out: &mut Vec<String>, line: &Vec<char>, n: usize)
    requires
        n <= line@.len(),
    ensures
        final(out).deep_view() == old(out).deep_view() + keep_words(seq![line@.take(n as int)]),
{
    let ghost l = line@.take(n as int);
    let ghost one = seq![l];
    assert(one.drop_last() =~= Seq::<Seq<char>>::empty());
    assert(one.last() == l);
    assert(keep_words(Seq::<Seq<char>>::empty()) == Seq::<Seq<char>>::empty());
    let mut end = n;
    if end > 0 && line[end - 1] == '\r' {
        end = end - 1;
        assert(line@.take(end as int) =~= l.drop_last());
    }
    assert(strip_cr(l) == line@.take(end as int));
    if end > 0 {
        let w = string_of(line, end);
        let ghost before = out.deep_view();
        out.push(w);
        assert(out.deep_view() =~= before.push(w@));
        assert(keep_words(one) =~= seq![w@]);
        assert(out.deep_view() =~= before + keep_words(one));
    } else {
        assert(keep_words(one) =~= Seq::<Seq<char>>::empty());
        assert(out.deep_view() =~= old(out).deep_view() + keep_words(one));
    }
}

proof fn lemma_keep_words_push(a: Seq<Seq<char>>, x: Seq<char>)
    ensures
        keep_words(a.push(x)) == keep_words(a) + keep_words(seq![x]),
{
    let one = seq![x];
    assert(a.push(x).drop_last() =~= a);
    assert(one.drop_last() =~= Seq::<Seq<char>>::empty());
    assert(keep_words(Seq::<Seq<char>>::empty()) == Seq::<Seq<char>>::empty());
    if strip_cr(x).len() > 0 {
        assert(keep_words(one) =~= seq![strip_cr(x)]);
        assert(keep_words(a.push(x)) =~= keep_words(a) + keep_words(one));
    } else {
        assert(keep_words(one) =~= Seq::<Seq<char>>::empty());
        assert(keep_words(a.push(x)) =~= keep_words(a) + keep_words(one));
    }
}

/// The candidate words of a word list: its lines, split at line feeds, each
/// without a final carriage return, empty ones left out.
pub fn parse_candidates(content: &str) -> (r: Vec<String>)
    ensures
        r.deep_view() == candidates_of(content@),
{
    let cs = chars_of(content);
    let mut out: Vec<String> = Vec::new();
    let mut line: Vec<char> = Vec::new();
    let mut i: usize = 0;
    assert(cs@.take(0) =~= Seq::<char>::empty());
    assert(out.deep_view() =~= keep_words(Seq::<Seq<char>>::empty()));
    assert(line@ =~= Seq::<char>::empty());
    while i < cs.len()
        invariant
            cs@ == content@,
            i <= cs@.len(),
            pieces(cs@.take(i as int)).len() >= 1,
            line@ == pieces(cs@.take(i as int)).last(),
            out.deep_view() == keep_words(pieces(cs@.take(i as int)).drop_last()),
        decreases cs@.len() - i,
    {
        let c = cs[i];
        let ghost ps = pieces(cs@.take(i as int));
        let ghost next = cs@.take(i + 1);
        assert(next.drop_last() =~= cs@.take(i as int));
        assert(next.last() == c);
        if c == '\n' {
            finish_line(&mut out, &line, line.len());
            assert(line@.take(line@.len() as int) =~= line@);
            proof {
                lemma_keep_words_push(ps.drop_last(), ps.last());
                assert(ps.drop_last().push(ps.last()) =~= ps);
                assert(pieces(next).drop_last() =~= ps);
            }
            line = Vec::new();
            assert(line@ =~= Seq::<char>::empty());
        } else {
            line.push(c);
            assert(pieces(next).drop_last() =~= ps.drop_last());
        }
        i += 1;
    }
    let ghost ps = pieces(cs@.take(i as int));
    finish_line(&mut out, &line, line.len());
    proof {
        assert(line@.take(line@.len() as int) =~= line@);
        lemma_keep_words_push(ps.drop_last(), ps.last());
        assert(ps.drop_last().push(ps.last()) =~= ps);
        assert(cs@.take(i as int) =~= cs@);
    }
    out
}

/// Relies on `rand::thread_rng` and `Rng::gen_range`: a number drawn from
/// `0..n`, which panics on an empty range.
#[verifier::external_body]
fn random_below(n: usize) -> (r: usize)
    requires
        n > 0,
    ensures
        r < n,
{
    rand::thread_rng().gen_range(0..n)
}

/// Chooses the target of a new match at random among the candidate words of
/// the word list `content`; fails with `EmptySource` when it holds none.
pub fn select_target(content: &str) -> (r: Result<String, TargetError>)
    ensures
        r is Err <==> candidates_of(content@).len() == 0,
        r is Err ==> r == Err::<String, TargetError>(TargetError::EmptySource),
        r is Ok ==> exists|i: int|
            0 <= i < candidates_of(content@).len() && r->Ok_0@ == #[trigger] candidates_of(
                content@,
            )[i],
{
    let words = parse_candidates(content);
    if words.len() == 0 {
        return Err(TargetError::EmptySource);
    }
    let i = random_below(words.len());
    let w = words[i].clone();
    assert(w@ == words.deep_view()[i as int]);
    Ok(w)
}

} // verus!
