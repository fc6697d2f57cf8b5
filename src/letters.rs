//! Letter classification: which letters of a guess occur in the target.
use vstd::prelude::*;
use vstd::string::*;

verus! {

/// The letters of `word` that occur somewhere in `target`.
pub open spec fn hit_set(word: Seq<char>, target: Seq<char>) -> Set<char> {
    Set::new(|c: char| word.contains(c) && target.contains(c))
}

/// The letters of `word` that do not occur in `target`.
pub open spec fn miss_set(word: Seq<char>, target: Seq<char>) -> Set<char> {
    Set::new(|c: char| word.contains(c) && !target.contains(c))
}

/// Whether the text `s` holds the letter `c`.
pub fn str_contains(s: &str, c: char) -> (r: bool)
    ensures
        r == s@.contains(c),
{
    let n = s.unicode_len();
    let mut i: usize = 0;
    while i < n
        invariant
            n == s@.len(),
            i <= n,
            forall|j: int| 0 <= j < i ==> s@[j] != c,
        decreases n - i,
    {
        if s.get_char(i) == c {
            assert(s@[i as int] == c);
            return true;
        }
        i += 1;
    }
    false
}

/// Whether the letter list `v` holds `c`.
pub fn has_letter(v: &Vec<char>, c: char) -> (r: bool)
    ensures
        r == v@.contains(c),
{
    let mut i: usize = 0;
    while i < v.len()
        invariant
            i <= v@.len(),
            forall|j: int| 0 <= j < i ==> v@[j] != c,
        decreases v@.len() - i,
    {
        if v[i] == c {
            assert(v@[i as int] == c);
            return true;
        }
        i += 1;
    }
    false
}

/// Adds `c` to the letter list `v`, read as a set: a letter already there is
/// not added twice.
pub fn add_letter(v: &mut Vec<char>, c: char)
    ensures
        final(v)@.to_set() == old(v)@.to_set().insert(c),
        old(v)@.no_duplicates() ==> final(v)@.no_duplicates(),
{
    if !has_letter(v, c) {
        v.push(c);
        assert(final(v)@.to_set() =~= old(v)@.to_set().insert(c)) by {
            assert(final(v)@ == old(v)@.push(c));
            assert forall|x: char| old(v)@.contains(x) implies final(v)@.contains(x) by {
                let j = choose|j: int| 0 <= j < old(v)@.len() && old(v)@[j] == x;
                assert(final(v)@[j] == x);
            }
            assert(final(v)@[old(v)@.len() as int] == c);
        }
    } else {
        assert(v@.to_set() =~= v@.to_set().insert(c));
    }
}

/// Sorts each letter of `word` into `hits` when `target` holds it and into
/// `misses` otherwise.
pub fn absorb_guess(hits: &mut Vec<char>, misses: &mut Vec<char>, word: &str, target: &str)
    ensures
        final(hits)@.to_set() == old(hits)@.to_set().union(hit_set(word@, target@)),
        final(misses)@.to_set() == old(misses)@.to_set().union(miss_set(word@, target@)),
        old(hits)@.no_duplicates() ==> final(hits)@.no_duplicates(),
        old(misses)@.no_duplicates() ==> final(misses)@.no_duplicates(),
{
    let n = word.unicode_len();
    let ghost h0 = hits@.to_set();
    let ghost m0 = misses@.to_set();
    let mut i: usize = 0;
    while i < n
        invariant
            n == word@.len(),
            i <= n,
            hits@.to_set() == h0.union(hit_set(word@.take(i as int), target@)),
            misses@.to_set() == m0.union(miss_set(word@.take(i as int), target@)),
            h0 == old(hits)@.to_set(),
            m0 == old(misses)@.to_set(),
            old(hits)@.no_duplicates() ==> hits@.no_duplicates(),
            old(misses)@.no_duplicates() ==> misses@.no_duplicates(),
        decreases n - i,
    {
        let c = word.get_char(i);
        let ghost pre = word@.take(i as int);
        let ghost post = word@.take(i + 1);
        assert(post == pre.push(c));
        assert forall|x: char| post.contains(x) <==> (pre.contains(x) || x == c) by {
            if pre.contains(x) {
                let j = choose|j: int| 0 <= j < pre.len() && pre[j] == x;
                assert(post[j] == x);
            }
            if x == c {
                assert(post[i as int] == x);
            }
            if post.contains(x) && x != c {
                let j = choose|j: int| 0 <= j < post.len() && post[j] == x;
                assert(pre[j] == x);
            }
        }
        if str_contains(target, c) {
            add_letter(hits, c);
            assert(miss_set(post, target@) =~= miss_set(pre, target@));
            assert(hit_set(post, target@) =~= hit_set(pre, target@).insert(c));
        } else {
            add_letter(misses, c);
            assert(hit_set(post, target@) =~= hit_set(pre, target@));
            assert(miss_set(post, target@) =~= miss_set(pre, target@).insert(c));
        }
        i += 1;
    }
    assert(word@.take(n as int) == word@);
}

/// The letters of `word` that `target` holds, and those that it does not,
/// each listed once.
pub fn classify(word: &str, target: &str) -> (r: (Vec<char>, Vec<char>))
    ensures
        r.0@.to_set() == hit_set(word@, target@),
        r.1@.to_set() == miss_set(word@, target@),
        r.0@.no_duplicates(),
        r.1@.no_duplicates(),
{
    let mut hits: Vec<char> = Vec::new();
    let mut misses: Vec<char> = Vec::new();
    assert(hits@.to_set() =~= Set::empty());
    assert(misses@.to_set() =~= Set::empty());
    absorb_guess(&mut hits, &mut misses, word, target);
    assert(hits@.to_set() =~= hit_set(word@, target@));
    assert(misses@.to_set() =~= miss_set(word@, target@));
    (hits, misses)
}

} // verus!
