use vstd::prelude::*;

verus! {

broadcast use vstd::string::group_string_axioms;

/// The characters of `s`, one by one.
pub fn chars_of(s: &str) -> (v: Vec<char>)
    ensures
        v@ == s@,
{
    let mut v: Vec<char> = Vec::new();
    for c in it: s.chars()
        invariant
            v@ == it.seq().take(it.index() as int),
            it.seq() == s@,
    {
        v.push(c);
    }
    v
}

/// Unicode `White_Space`, the characters that `char::is_whitespace` accepts.
pub open spec fn is_whitespace(c: char) -> bool {
    ||| '\u{9}' <= c <= '\u{D}'
    ||| c == ' '
    ||| c == '\u{85}'
    ||| c == '\u{A0}'
    ||| c == '\u{1680}'
    ||| '\u{2000}' <= c <= '\u{200A}'
    ||| c == '\u{2028}'
    ||| c == '\u{2029}'
    ||| c == '\u{202F}'
    ||| c == '\u{205F}'
    ||| c == '\u{3000}'
}

/// Decides `is_whitespace`.
pub fn whitespace(c: char) -> (r: bool)
    ensures
        r == is_whitespace(c),
{
    ('\u{9}' <= c && c <= '\u{D}') || c == ' ' || c == '\u{85}' || c == '\u{A0}' || c
        == '\u{1680}' || ('\u{2000}' <= c && c <= '\u{200A}') || c == '\u{2028}' || c
        == '\u{2029}' || c == '\u{202F}' || c == '\u{205F}' || c == '\u{3000}'
}

/// The length of the run of non-whitespace characters that `s` starts with.
pub open spec fn word_len(s: Seq<char>) -> nat
    decreases s.len(),
{
    if s.len() == 0 || is_whitespace(s[0]) {
        0
    } else {
        1 + word_len(s.drop_first())
    }
}

/// The words of `s`: its maximal runs of non-whitespace characters, in order.
/// This is what `str::split_whitespace` yields.
pub open spec fn words(s: Seq<char>) -> Seq<Seq<char>>
    decreases s.len(),
{
    if s.len() == 0 {
        seq![]
    } else if is_whitespace(s[0]) {
        words(s.drop_first())
    } else {
        proof {
            lemma_word_len_bounds(s);
        }
        let n: nat = word_len(s);
        seq![s.take(n as int)] + words(s.skip(n as int))
    }
}

/// A word of `s` is as long as `s` at most, and at least one character long where `s`
/// starts with one that is not whitespace.
pub proof fn lemma_word_len_bounds(s: Seq<char>)
    ensures
        word_len(s) <= s.len(),
        s.len() > 0 && !is_whitespace(s[0]) ==> word_len(s) >= 1,
    decreases s.len(),
{
    if s.len() > 0 && !is_whitespace(s[0]) {
        lemma_word_len_bounds(s.drop_first());
    }
}

/// Where the first `k` characters of `s` are not whitespace and the next one (if any) is,
/// the word that `s` starts with is `k` characters long.
pub proof fn lemma_word_len_run(s: Seq<char>, k: nat)
    requires
        k <= s.len(),
        forall|t: int| 0 <= t < k ==> !is_whitespace(#[trigger] s[t]),
        k == s.len() || is_whitespace(s[k as int]),
    ensures
        word_len(s) == k,
    decreases k,
{
    if k > 0 {
        let r = s.drop_first();
        assert forall|t: int| 0 <= t < k - 1 implies !is_whitespace(#[trigger] r[t]) by {
            assert(r[t] == s[t + 1]);
        }
        if k < s.len() {
            assert(r[k - 1] == s[k as int]);
        }
        lemma_word_len_run(r, (k - 1) as nat);
    }
}

/// A whitespace character at the end does not change the length of the first word.
pub proof fn lemma_word_len_push_whitespace(s: Seq<char>, c: char)
    requires
        is_whitespace(c),
    ensures
        word_len(s.push(c)) == word_len(s),
    decreases s.len(),
{
    if s.len() > 0 && !is_whitespace(s[0]) {
        assert(s.push(c).drop_first() =~= s.drop_first().push(c));
        lemma_word_len_push_whitespace(s.drop_first(), c);
    }
}

/// Whitespace at the end of a text does not change its words.
pub proof fn lemma_words_push_whitespace(s: Seq<char>, c: char)
    requires
        is_whitespace(c),
    ensures
        words(s.push(c)) == words(s),
    decreases s.len(),
{
    let t = s.push(c);
    if s.len() == 0 {
        assert(t.drop_first() =~= s);
    } else if is_whitespace(s[0]) {
        assert(t.drop_first() =~= s.drop_first().push(c));
        lemma_words_push_whitespace(s.drop_first(), c);
    } else {
        lemma_word_len_push_whitespace(s, c);
        lemma_word_len_bounds(s);
        let n: nat = word_len(s);
        assert(t.take(n as int) =~= s.take(n as int));
        assert(t.skip(n as int) =~= s.skip(n as int).push(c));
        lemma_words_push_whitespace(s.skip(n as int), c);
    }
}

/// Whitespace at the start of a text does not change its words.
pub proof fn lemma_words_prepend_whitespace(s: Seq<char>, c: char)
    requires
        is_whitespace(c),
    ensures
        words(seq![c] + s) == words(s),
{
    assert((seq![c] + s).drop_first() =~= s);
}

/// `w` is a word: at least one character long, none of them whitespace.
pub open spec fn is_word(w: Seq<char>) -> bool {
    &&& w.len() > 0
    &&& forall|i: int| 0 <= i < w.len() ==> !is_whitespace(#[trigger] w[i])
}

/// A word alone has itself as its only word.
pub proof fn lemma_words_of_word(w: Seq<char>)
    requires
        is_word(w),
    ensures
        words(w) == seq![w],
{
    lemma_word_len_run(w, w.len());
    assert(!is_whitespace(w[0]));
    assert(w.take(w.len() as int) =~= w);
    assert(w.skip(w.len() as int) =~= Seq::<char>::empty());
    assert(words(Seq::<char>::empty()) =~= Seq::<Seq<char>>::empty());
    assert(seq![w] + Seq::<Seq<char>>::empty() =~= seq![w]);
}

/// A word followed by a space and more text: the word, then the words of the rest.
pub proof fn lemma_words_word_space(w: Seq<char>, rest: Seq<char>)
    requires
        is_word(w),
    ensures
        words(w + seq![' '] + rest) == seq![w] + words(rest),
{
    words_split_at_whitespace(w, ' ', rest);
}

/// A word, one whitespace character and more text: the word, then the words of the rest.
/// With `words_of_empty_text`, `lemma_words_prepend_whitespace` and `lemma_words_of_word`,
/// this settles the words of every text.
pub proof fn words_split_at_whitespace(w: Seq<char>, c: char, rest: Seq<char>)
    requires
        is_word(w),
        is_whitespace(c),
    ensures
        words(w + seq![c] + rest) == seq![w] + words(rest),
{
    let t = w + seq![c] + rest;
    assert forall|i: int| 0 <= i < w.len() implies !is_whitespace(#[trigger] t[i]) by {
        assert(t[i] == w[i]);
    }
    assert(t[w.len() as int] == c);
    lemma_word_len_run(t, w.len());
    assert(t[0] == w[0]);
    assert(t.take(w.len() as int) =~= w);
    assert(t.skip(w.len() as int) =~= seq![c] + rest);
    lemma_words_prepend_whitespace(rest, c);
}

/// An empty text has no words.
pub proof fn words_of_empty_text()
    ensures
        words(Seq::<char>::empty()) == Seq::<Seq<char>>::empty(),
{
}

/// None of the first `word_len(s)` characters of `s` is whitespace.
pub proof fn lemma_word_len_prefix(s: Seq<char>)
    ensures
        forall|t: int| 0 <= t < word_len(s) ==> !is_whitespace(#[trigger] s[t]),
    decreases s.len(),
{
    if s.len() > 0 && !is_whitespace(s[0]) {
        let r = s.drop_first();
        lemma_word_len_prefix(r);
        lemma_word_len_bounds(s);
        assert(word_len(s) == 1 + word_len(r));
        assert forall|t: int| 0 <= t < word_len(s) implies !is_whitespace(#[trigger] s[t]) by {
            if t > 0 {
                assert(s[t] == r[t - 1]);
            }
        }
    }
}

/// Every word of a text is a word: nonempty and free of whitespace.
pub proof fn words_are_words(s: Seq<char>)
    ensures
        forall|i: int| 0 <= i < words(s).len() ==> is_word(#[trigger] words(s)[i]),
    decreases s.len(),
{
    if s.len() > 0 {
        if is_whitespace(s[0]) {
            words_are_words(s.drop_first());
            assert(words(s) == words(s.drop_first()));
        } else {
            lemma_word_len_bounds(s);
            lemma_word_len_prefix(s);
            let n: nat = word_len(s);
            let w = s.take(n as int);
            words_are_words(s.skip(n as int));
            assert(words(s) == seq![w] + words(s.skip(n as int)));
            assert forall|t: int| 0 <= t < w.len() implies !is_whitespace(#[trigger] w[t]) by {
                assert(w[t] == s[t]);
            }
            assert forall|i: int| 0 <= i < words(s).len() implies is_word(#[trigger] words(s)[i]) by {
                if i > 0 {
                    assert(words(s)[i] == words(s.skip(n as int))[i - 1]);
                }
            }
        }
    }
}

/// The position and end of each word of `cs`, in order.
pub fn word_bounds(cs: &Vec<char>) -> (r: Vec<(usize, usize)>)
    ensures
        r.len() == words(cs@).len(),
        forall|k: int| #![trigger r[k]] #![trigger words(cs@)[k]]
            0 <= k < r.len() ==> {
                &&& r[k].0 < r[k].1
                &&& r[k].1 <= cs.len()
                &&& cs@.subrange(r[k].0 as int, r[k].1 as int) == words(cs@)[k]
            },
{
    let n: usize = cs.len();
    let mut r: Vec<(usize, usize)> = Vec::new();
    let ghost mut done: Seq<Seq<char>> = seq![];
    let mut i: usize = 0;
    assert(done + words(cs@.skip(0)) =~= words(cs@)) by {
        assert(cs@.skip(0) =~= cs@);
    }
    while i < n
        invariant
            n == cs.len(),
            i <= n,
            words(cs@) == done + words(cs@.skip(i as int)),
            r.len() == done.len(),
            forall|k: int| #![trigger r[k]] #![trigger done[k]]
                0 <= k < r.len() ==> {
                    &&& r[k].0 < r[k].1
                    &&& r[k].1 <= i
                    &&& cs@.subrange(r[k].0 as int, r[k].1 as int) == done[k]
                },
        decreases n - i,
    {
        if whitespace(cs[i]) {
            let ghost rest = cs@.skip(i as int);
            assert(rest.drop_first() =~= cs@.skip(i + 1));
            assert(rest[0] == cs@[i as int]);
            i = i + 1;
            assert(words(cs@) == done + words(cs@.skip(i as int)));
        } else {
            let start: usize = i;
            let mut j: usize = i + 1;
            while j < n && !whitespace(cs[j])
                invariant
                    n == cs.len(),
                    start < j <= n,
                    forall|t: int| start <= t < j ==> !is_whitespace(#[trigger] cs@[t]),
                decreases n - j,
            {
                j = j + 1;
            }
            let ghost rest = cs@.skip(start as int);
            let ghost old_done = done;
            proof {
                assert forall|t: int| 0 <= t < j - start implies !is_whitespace(#[trigger] rest[t]) by {
                    assert(rest[t] == cs@[start + t]);
                }
                if j < n {
                    assert(rest[j - start] == cs@[j as int]);
                }
                lemma_word_len_run(rest, (j - start) as nat);
                assert(rest[0] == cs@[start as int]);
                assert(rest.take(j - start) =~= cs@.subrange(start as int, j as int));
                assert(rest.skip(j - start) =~= cs@.skip(j as int));
                let w = cs@.subrange(start as int, j as int);
                assert(words(rest) == seq![w] + words(cs@.skip(j as int)));
                done = done.push(w);
                assert(words(cs@) =~= done + words(cs@.skip(j as int)));
            }
            let ghost old_r = r@;
            r.push((start, j));
            assert forall|k: int| #![trigger r[k]] #![trigger done[k]] 0 <= k < r.len() implies {
                &&& r[k].0 < r[k].1
                &&& r[k].1 <= j
                &&& cs@.subrange(r[k].0 as int, r[k].1 as int) == done[k]
            } by {
                if k < old_r.len() {
                    assert(r[k] == old_r[k]);
                    assert(done[k] == old_done[k]);
                } else {
                    assert(r[k] == (start, j));
                    assert(done[k] == cs@.subrange(start as int, j as int));
                }
            }
            i = j;
        }
    }
    proof {
        assert(cs@.skip(n as int) =~= Seq::<char>::empty());
        assert(done =~= words(cs@));
        assert forall|k: int| #![trigger r[k]] #![trigger words(cs@)[k]] 0 <= k < r.len() implies {
            &&& r[k].0 < r[k].1
            &&& r[k].1 <= cs.len()
            &&& cs@.subrange(r[k].0 as int, r[k].1 as int) == words(cs@)[k]
        } by {
            assert(done[k] == words(cs@)[k]);
        }
    }
    r
}

} // verus!
