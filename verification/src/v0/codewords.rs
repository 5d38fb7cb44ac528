//! The code words of a key shard: the words of a mnemonic phrase, which are
//! printed one by one.

use vstd::prelude::*;
use vstd::string::{StrSliceExecFns, StringExecFns};

verus! {

/// The 24 code words that stand for the key of an encrypted key shard.
pub type KeyShardCodewords = [String; 24];

/// The words as sequences of characters.
pub open spec fn word_views(words: Seq<String>) -> Seq<Seq<char>> {
    Seq::new(words.len(), |i: int| words[i]@)
}

/// The pieces of `s` between its spaces: one more than it has spaces.
pub open spec fn words_of(s: Seq<char>) -> Seq<Seq<char>>
    decreases s.len(),
{
    if s.len() == 0 {
        seq![Seq::<char>::empty()]
    } else {
        let before = words_of(s.drop_last());
        if s.last() == ' ' {
            before.push(Seq::<char>::empty())
        } else {
            before.update(before.len() - 1, before.last().push(s.last()))
        }
    }
}

/// The words with one space between two of them.
pub open spec fn join_words(words: Seq<Seq<char>>) -> Seq<char>
    decreases words.len(),
{
    if words.len() == 0 {
        Seq::<char>::empty()
    } else if words.len() == 1 {
        words[0]
    } else {
        join_words(words.drop_last()) + seq![' '] + words.last()
    }
}

/// A string has one piece more than it has spaces.
pub proof fn lemma_words_count(s: Seq<char>)
    ensures
        words_of(s).len() == crate::primitives::count_spaces(s) + 1,
    decreases s.len(),
{
    if s.len() > 0 {
        lemma_words_count(s.drop_last());
    }
}

/// Joining the pieces of a string gives the string back.
pub proof fn lemma_join_words_of(s: Seq<char>)
    ensures
        join_words(words_of(s)) == s,
    decreases s.len(),
{
    if s.len() == 0 {
    } else {
        let before = words_of(s.drop_last());
        lemma_join_words_of(s.drop_last());
        if s.last() == ' ' {
            let all = before.push(Seq::<char>::empty());
            assert(all.drop_last() =~= before);
        } else {
            let word = before.last().push(s.last());
            let all = before.update(before.len() - 1, word);
            if before.len() == 1 {
            } else {
                assert(all.drop_last() =~= before.drop_last());
                assert(join_words(all) =~= join_words(before).push(s.last()));
            }
        }
    }
}

/// Splits a phrase at its spaces.
pub fn split_words(phrase: &str) -> (words: Vec<String>)
    ensures
        word_views(words@) == words_of(phrase@),
{
    let n = phrase.unicode_len();
    let mut words: Vec<String> = Vec::new();
    let mut start: usize = 0;
    let mut i: usize = 0;
    assert(phrase@.take(0) =~= Seq::<char>::empty());
    while i < n
        invariant
            n == phrase@.len(),
            start <= i <= n,
            words_of(phrase@.take(i as int)) == word_views(words@).push(
                phrase@.subrange(start as int, i as int),
            ),
        decreases n - i,
    {
        let c = phrase.get_char(i);
        let ghost done = word_views(words@);
        let ghost current = phrase@.subrange(start as int, i as int);
        proof {
            assert(phrase@.take(i + 1).drop_last() =~= phrase@.take(i as int));
        }
        if c == ' ' {
            let word = phrase.substring_char(start, i);
            words.push(String::from_str(word));
            start = i + 1;
            proof {
                assert(phrase@.subrange(i + 1, i + 1) =~= Seq::<char>::empty());
            }
        } else {
            proof {
                assert(phrase@.subrange(start as int, i + 1) =~= current.push(c));
                assert(done.push(current).update(done.len() as int, current.push(c)) =~= done.push(
                    current.push(c),
                ));
            }
        }
        i += 1;
    }
    let word = phrase.substring_char(start, n);
    words.push(String::from_str(word));
    proof {
        assert(phrase@.take(n as int) =~= phrase@);
    }
    words
}

/// Joins words with one space between two of them.
pub fn join(words: &[String]) -> (phrase: String)
    ensures
        phrase@ == join_words(word_views(words@)),
{
    let mut phrase = String::new();
    let mut i: usize = 0;
    while i < words.len()
        invariant
            i <= words.len(),
            phrase@ == join_words(word_views(words@).take(i as int)),
        decreases words.len() - i,
    {
        proof {
            reveal_strlit(" ");
            let so_far = word_views(words@).take(i + 1);
            assert(so_far.drop_last() =~= word_views(words@).take(i as int));
        }
        if i > 0 {
            phrase.append(" ");
        }
        phrase.append(words[i].as_str());
        i += 1;
    }
    assert(word_views(words@).take(words.len() as int) =~= word_views(words@));
    phrase
}

/// The 24 words of a vector as an array.
pub(crate) fn codewords_from(words: Vec<String>) -> (out: KeyShardCodewords)
    requires
        words@.len() == 24,
    ensures
        word_views(out@) == word_views(words@),
{
    let mut out: [String; 24] = [
        String::new(),
        String::new(),
        String::new(),
        String::new(),
        String::new(),
        String::new(),
        String::new(),
        String::new(),
        String::new(),
        String::new(),
        String::new(),
        String::new(),
        String::new(),
        String::new(),
        String::new(),
        String::new(),
        String::new(),
        String::new(),
        String::new(),
        String::new(),
        String::new(),
        String::new(),
        String::new(),
        String::new(),
    ];
    let mut i: usize = 0;
    while i < 24
        invariant
            i <= 24,
            words@.len() == 24,
            forall|j: int| 0 <= j < i ==> out@[j]@ == words@[j]@,
        decreases 24 - i,
    {
        out[i] = String::from_str(words[i].as_str());
        i += 1;
    }
    out
}

} // verus!
